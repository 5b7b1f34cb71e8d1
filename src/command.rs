use crate::binding::{chord_held, KeyBinding};
use crate::keys::{InputSnapshot, Key, Modifier, PhysicalKey};
use crate::text::SerializeEnum;
use vstd::prelude::*;

verus! {

/// A named, serializable action.
pub trait Action: SerializeEnum {

}

/// A discrete semantic action of one controllable subsystem; it carries no key.
pub trait Command: Action + Copy {

}

/// Something that collects the commands of a frame.
pub trait CommandDispatch<T: Command>: Sized {
    /// The commands collected so far, in order.
    spec fn queued(&self) -> Seq<T>;

    fn push_command(&mut self, command: T)
        ensures
            final(self).queued() == old(self).queued().push(command),
    ;
}

/// Something whose state a frame's commands decide.
pub trait CommandHandler<T: Command>: Sized {
    /// The state after handling `commands`, starting from `before`.
    spec fn handled(before: Self, commands: Seq<T>) -> Self;

    fn handle(&mut self, commands: &Vec<T>)
        ensures
            *final(self) == Self::handled(*old(self), commands@),
    ;
}

/// The queue of commands emitted during one frame.
pub struct CommandSystem<T: Command> {
    commands: Vec<T>,
}

impl<T: Command> CommandSystem<T> {
    pub fn new() -> (r: Self)
        ensures
            r.queued() == Seq::<T>::empty(),
    {
        CommandSystem { commands: Vec::new() }
    }

    /// The commands collected so far.
    pub fn pending(&self) -> (r: &Vec<T>)
        ensures
            r@ == self.queued(),
    {
        &self.commands
    }

    /// Hands out the collected commands and leaves the queue empty.
    pub fn take(&mut self) -> (r: Vec<T>)
        ensures
            r@ == old(self).queued(),
            final(self).queued() == Seq::<T>::empty(),
    {
        let mut r: Vec<T> = Vec::new();
        core::mem::swap(&mut self.commands, &mut r);
        r
    }
}

impl<T: Command> CommandDispatch<T> for CommandSystem<T> {
    closed spec fn queued(&self) -> Seq<T> {
        self.commands@
    }

    fn push_command(&mut self, command: T) {
        self.commands.push(command);
    }
}

/// A command together with the alternative chords that emit it.
pub struct CommandBinding<T: Command> {
    action: T,
    bindings: Vec<KeyBinding>,
}

/// Whether one of the chords `bindings` is held in `snapshot`.
pub open spec fn any_chord_held(
    bindings: Seq<(Key, Seq<Modifier>)>,
    snapshot: Set<PhysicalKey>,
) -> bool {
    exists|i: int| 0 <= i < bindings.len() && chord_held(#[trigger] bindings[i], snapshot)
}

/// The commands of `table` whose binding is held in `snapshot`, in table order.
pub open spec fn active_in<T>(
    table: Seq<(T, Seq<(Key, Seq<Modifier>)>)>,
    snapshot: Set<PhysicalKey>,
) -> Seq<T>
    decreases table.len(),
{
    if table.len() == 0 {
        seq![]
    } else {
        let before = active_in(table.drop_last(), snapshot);
        if any_chord_held(table.last().1, snapshot) {
            before.push(table.last().0)
        } else {
            before
        }
    }
}

impl<T: Command> View for CommandBinding<T> {
    type V = (T, Seq<(Key, Seq<Modifier>)>);

    closed spec fn view(&self) -> (T, Seq<(Key, Seq<Modifier>)>) {
        (self.action, self.bindings@.map_values(|b: KeyBinding| b@))
    }
}

impl<T: Command> CommandBinding<T> {
    pub fn new(action: T, bindings: Vec<KeyBinding>) -> (r: Self)
        ensures
            r@ == (action, bindings@.map_values(|b: KeyBinding| b@)),
    {
        CommandBinding { action, bindings }
    }

    pub fn action(&self) -> (r: T)
        ensures
            r == self@.0,
    {
        self.action
    }

    /// Whether any of the alternative chords is held.
    pub fn is_pressed(&self, keys: &InputSnapshot) -> (r: bool)
        ensures
            r == any_chord_held(self@.1, keys@),
    {
        let ghost views = self.bindings@.map_values(|b: KeyBinding| b@);
        let mut i: usize = 0;
        while i < self.bindings.len()
            invariant
                i <= self.bindings@.len(),
                views == self.bindings@.map_values(|b: KeyBinding| b@),
                forall|j: int| 0 <= j < i ==> !chord_held(#[trigger] views[j], keys@),
            decreases self.bindings@.len() - i,
        {
            if self.bindings[i].is_pressed(keys) {
                assert(chord_held(views[i as int], keys@));
                return true;
            }
            i = i + 1;
        }
        false
    }
}

/// The commands of `table` whose binding is held in this frame's snapshot, in table order.
pub fn active_commands<T: Command>(table: &Vec<CommandBinding<T>>, keys: &InputSnapshot) -> (r: Vec<T>)
    ensures
        r@ == active_in(table@.map_values(|c: CommandBinding<T>| c@), keys@),
{
    let ghost views = table@.map_values(|c: CommandBinding<T>| c@);
    let mut r: Vec<T> = Vec::new();
    let mut i: usize = 0;
    while i < table.len()
        invariant
            i <= table@.len(),
            views == table@.map_values(|c: CommandBinding<T>| c@),
            r@ == active_in(views.take(i as int), keys@),
        decreases table@.len() - i,
    {
        assert(views.take(i + 1).drop_last() =~= views.take(i as int));
        if table[i].is_pressed(keys) {
            r.push(table[i].action());
        }
        i = i + 1;
    }
    assert(views.take(i as int) =~= views);
    r
}

} // verus!
