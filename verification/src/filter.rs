//! How a node lets the pointer through, and the filter that is put in force
//! on a node when its setting changes.
use vstd::prelude::*;
use crate::pointer::ActivePointerFilter;

verus! {

/// How a node wants the pointer to treat it.
#[derive(Clone, Copy, Debug)]
pub enum PointerFilter {
    /// No filter in force: the pointer passes over the node.
    Default,
    /// No filter in force: the pointer passes over the node.
    Ignore,
    /// The node takes pointer events and lets the pointer go on to the
    /// nodes behind it.
    Pass,
    /// The node takes pointer events and stops the pointer there.
    Block,
}

impl Default for PointerFilter {
    fn default() -> (f: Self)
        ensures
            f is Default,
    {
        PointerFilter::Default
    }
}

impl PointerFilter {
    /// The setting itself.
    pub fn pointer_filter(&self) -> (f: Self)
        ensures
            f == *self,
    {
        *self
    }

    /// Replaces the setting with `value`.
    pub fn set_pointer_filter(&mut self, value: Self)
        ensures
            *final(self) == value,
    {
        *self = value
    }
}

/// The filter in force on a node with setting `f`: `Pass` and `Block` put
/// the filter of the same name in force, the others none.
pub open spec fn spec_active_filter(f: PointerFilter) -> Option<ActivePointerFilter> {
    match f {
        PointerFilter::Pass => Some(ActivePointerFilter::Pass),
        PointerFilter::Block => Some(ActivePointerFilter::Block),
        _ => None,
    }
}

/// The filter in force on a node with setting `filter`.
pub fn active_filter(filter: PointerFilter) -> (r: Option<ActivePointerFilter>)
    ensures
        r == spec_active_filter(filter),
{
    match filter {
        PointerFilter::Pass => Some(ActivePointerFilter::Pass),
        PointerFilter::Block => Some(ActivePointerFilter::Block),
        _ => None,
    }
}

/// What to do to an entity whose pointer setting changed.
#[derive(Clone, Copy, Debug)]
pub enum FilterCommand {
    /// Put `filter` in force on `entity`.
    Insert { entity: u64, filter: ActivePointerFilter },
    /// Take the filter in force off `entity`.
    Remove { entity: u64 },
}

/// The command for an entity with setting `f`.
pub open spec fn spec_filter_command(entity: u64, f: PointerFilter) -> FilterCommand {
    match spec_active_filter(f) {
        Some(a) => FilterCommand::Insert { entity, filter: a },
        None => FilterCommand::Remove { entity },
    }
}

/// One command for each entity whose setting changed, in the same order:
/// insert the filter that the setting puts in force, or remove the one in
/// force where the setting puts none.
pub fn bypass_filter_system(changed: &Vec<(u64, PointerFilter)>) -> (commands: Vec<FilterCommand>)
    ensures
        commands@.len() == changed@.len(),
        forall|i: int|
            0 <= i < changed@.len() ==> #[trigger] commands@[i] == spec_filter_command(
                changed@[i].0,
                changed@[i].1,
            ),
{
    let mut commands: Vec<FilterCommand> = Vec::new();
    let mut i: usize = 0;
    while i < changed.len()
        invariant
            i <= changed@.len(),
            commands@.len() == i,
            forall|k: int|
                0 <= k < i ==> #[trigger] commands@[k] == spec_filter_command(
                    changed@[k].0,
                    changed@[k].1,
                ),
        decreases changed.len() - i,
    {
        let (entity, filter) = changed[i];
        let command = match active_filter(filter) {
            Some(a) => FilterCommand::Insert { entity, filter: a },
            None => FilterCommand::Remove { entity },
        };
        commands.push(command);
        i += 1;
    }
    commands
}

/// `Pass` and `Block` put the filter of the same name in force; `Default`
/// and `Ignore` put none.
pub proof fn law_filter_in_force(f: PointerFilter)
    ensures
        (spec_active_filter(f) == Some(ActivePointerFilter::Pass)) <==> (f is Pass),
        (spec_active_filter(f) == Some(ActivePointerFilter::Block)) <==> (f is Block),
        (spec_active_filter(f) is None) <==> (f is Default || f is Ignore),
{
}

/// Each command is for the entity whose setting changed: an insert of the
/// filter of the same name for `Pass` and `Block`, a removal otherwise.
pub proof fn law_filter_command(entity: u64, f: PointerFilter)
    ensures
        spec_filter_command(entity, f) == (match f {
            PointerFilter::Pass => FilterCommand::Insert { entity, filter: ActivePointerFilter::Pass },
            PointerFilter::Block => FilterCommand::Insert { entity, filter: ActivePointerFilter::Block },
            _ => FilterCommand::Remove { entity },
        }),
{
}

} // verus!
