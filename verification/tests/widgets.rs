use polako::text::{Name, Text, TextSection};
use polako::widgets::{body_system, Body, DivDesign, SliderHandle};

#[derive(Clone, Copy, Debug, Default, PartialEq)]
struct Style {
    size: u32,
}

#[test]
fn text_shows_first_section() {
    let t: Text<Style> = Text { sections: vec![] };
    assert_eq!(t.text(), "");
    let t = Text {
        sections: vec![
            TextSection { value: "a".to_string(), style: Style { size: 3 } },
            TextSection { value: "b".to_string(), style: Style { size: 4 } },
        ],
    };
    assert_eq!(t.text(), "a");
}

#[test]
fn set_text_on_empty_adds_a_default_section() {
    let mut t: Text<Style> = Text { sections: vec![] };
    t.set_text("hello".to_string());
    assert_eq!(t.sections.len(), 1);
    assert_eq!(t.text(), "hello");
    assert_eq!(t.sections[0].style, Style::default());
}

#[test]
fn set_text_replaces_first_value_only() {
    let mut t = Text::from_section("x".to_string(), Style { size: 9 });
    t.sections.push(TextSection { value: "y".to_string(), style: Style { size: 1 } });
    t.set_text("z".to_string());
    assert_eq!(t.text(), "z");
    assert_eq!(t.sections[0].style, Style { size: 9 });
    assert_eq!(t.sections[1].value, "y");
}

#[test]
fn name_reads_back() {
    let mut n = Name::new("body".to_string());
    assert_eq!(n.get_value(), "body");
    n.set_value("root".to_string());
    assert_eq!(n.get_value(), "root");
}

#[test]
fn body_camera_falls_back_to_default() {
    let bodies = vec![Body::new(Some(4)), Body::new(None)];
    assert_eq!(body_system(&bodies, Some(1)), vec![4, 1]);
    assert_eq!(body_system(&vec![], None), Vec::<u64>::new());
    assert_eq!(Body::new(Some(2)).target_camera(), Some(2));
}

#[test]
fn div_content_is_appended() {
    let d = DivDesign;
    let mut content = vec![1];
    d.push_text(&mut content, 2);
    d.push_content(&mut content, 3);
    assert_eq!(content, vec![1, 2, 3]);
}

#[test]
fn slider_handle_default() {
    let _ = SliderHandle::default();
}
