//! The string properties of text and names: the value a text shows is the
//! value of its first section; a name is one string.
use vstd::prelude::*;

verus! {

/// A run of text with its style. The style is carried as it is.
pub struct TextSection<S> {
    pub value: String,
    pub style: S,
}

/// A text made of sections.
pub struct Text<S> {
    pub sections: Vec<TextSection<S>>,
}

/// The value a text with these sections shows: that of its first section,
/// or the empty string when it has none.
pub open spec fn shown_value<S>(sections: Seq<TextSection<S>>) -> Seq<char> {
    if sections.len() == 0 {
        Seq::<char>::empty()
    } else {
        sections[0].value@
    }
}

impl<S> Text<S> {
    /// A text of one section.
    pub fn from_section(value: String, style: S) -> (t: Self)
        ensures
            t.sections@.len() == 1,
            t.sections@[0].value@ == value@,
            t.sections@[0].style == style,
    {
        let mut sections: Vec<TextSection<S>> = Vec::new();
        sections.push(TextSection { value, style });
        Text { sections }
    }

    /// The value of the first section, or the empty string when there is none.
    pub fn text(&self) -> (r: String)
        ensures
            r@ == shown_value(self.sections@),
    {
        if self.sections.len() > 0 {
            self.sections[0].value.clone()
        } else {
            String::new()
        }
    }

    /// Makes `text` the value of the first section; a text without
    /// sections gets one, with a style that `S::default()` returns. The
    /// other sections and the first section's style stay as they were.
    pub fn set_text(&mut self, text: String)
        where S: Default,
        ensures
            shown_value(final(self).sections@) == text@,
            old(self).sections@.len() == 0 ==> {
                &&& final(self).sections@.len() == 1
                &&& call_ensures(S::default, (), final(self).sections@[0].style)
            },
            old(self).sections@.len() > 0 ==> {
                &&& final(self).sections@.len() == old(self).sections@.len()
                &&& final(self).sections@[0].style == old(self).sections@[0].style
                &&& forall|i: int|
                    1 <= i < old(self).sections@.len() ==> #[trigger] final(self).sections@[i]
                        == old(self).sections@[i]
            },
    {
        if self.sections.len() == 0 {
            self.sections.push(TextSection { value: text, style: S::default() });
        } else {
            self.sections[0].value = text;
        }
    }
}

/// The name of an entity.
pub struct Name {
    value: String,
}

impl View for Name {
    type V = Seq<char>;

    closed spec fn view(&self) -> Seq<char> {
        self.value@
    }
}

impl Name {
    pub fn new(value: String) -> (n: Self)
        ensures
            n@ == value@,
    {
        Name { value }
    }

    /// The name as a string.
    pub fn get_value(&self) -> (r: String)
        ensures
            r@ == self@,
    {
        self.value.clone()
    }

    /// Renames to `value`.
    pub fn set_value(&mut self, value: String)
        ensures
            final(self)@ == value@,
    {
        self.value = value;
    }
}

/// A text shows the value of its first section, whatever follows it, and
/// an empty string when it has no section.
pub proof fn law_text_shows_first_section<S>(first: TextSection<S>, rest: Seq<TextSection<S>>)
    ensures
        shown_value(seq![first] + rest) == first.value@,
        shown_value(Seq::<TextSection<S>>::empty()) == Seq::<char>::empty(),
{
}

} // verus!
