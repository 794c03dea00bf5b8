//! The scope stack: one frame of variable records per open block.
//!
//! A frame keeps its bindings in the order in which they were declared and
//! is seen by contracts as a finite map; the stack is seen as a sequence of
//! such maps, innermost last.

use vstd::prelude::*;
use vstd::string::*;
use crate::ast::Location;
use crate::model::{
    borrow, consume, declare, is_copy_type, leave, lookup, resolve, Frame, VariableModel,
};
use crate::text::same_text;

verus! {

/// Tells whether `ty` names a type whose values are copied on a read:
/// `int`, `bool` or `char`. Values of every other type, `string` included,
/// are moved.
pub fn is_copy_type_name(ty: &str) -> (copy: bool)
    ensures
        copy == is_copy_type(ty@),
{
    same_text(ty, "int") || same_text(ty, "bool") || same_text(ty, "char")
}

/// The record of one declared variable.
#[derive(Debug)]
pub struct VariableState {
    /// Set once the value has been moved away.
    pub consumed: bool,
    /// The number of references taken with `&`.
    pub borrow_count: usize,
    /// Fixed when the variable is declared.
    pub mutable: bool,
    /// Where the variable was declared.
    pub declared_at: Location,
    /// The annotated or inferred type name.
    pub semantic_type: String,
}

impl View for VariableState {
    type V = VariableModel;

    open spec fn view(&self) -> VariableModel {
        VariableModel {
            consumed: self.consumed,
            borrow_count: self.borrow_count,
            mutable: self.mutable,
            declared_at: self.declared_at,
            semantic_type: self.semantic_type@,
        }
    }
}

impl VariableState {
    /// The record of a variable that has just been declared: live and
    /// unborrowed.
    pub fn new(mutable: bool, semantic_type: String, declared_at: Location) -> (v: VariableState)
        ensures
            v@ == VariableModel::fresh(mutable, semantic_type@, declared_at),
    {
        VariableState { consumed: false, borrow_count: 0, mutable, declared_at, semantic_type }
    }

    /// Tells whether a read leaves the variable as it is.
    pub fn is_copy(&self) -> (copy: bool)
        ensures
            copy == self@.is_copy(),
    {
        is_copy_type_name(self.semantic_type.as_str())
    }
}

/// A name with the record declared under it.
#[derive(Debug)]
pub struct Binding {
    pub name: String,
    pub state: VariableState,
}

/// The map that a list of bindings stands for: a later binding of a name
/// hides an earlier one.
pub open spec fn frame_of(bindings: Seq<Binding>) -> Frame
    decreases bindings.len(),
{
    if bindings.len() == 0 {
        Map::empty()
    } else {
        frame_of(bindings.drop_last()).insert(bindings.last().name@, bindings.last().state@)
    }
}

/// Tells whether `i` is the place of the binding that `name` refers to.
spec fn is_slot(bindings: Seq<Binding>, name: Seq<char>, i: int) -> bool {
    &&& 0 <= i < bindings.len()
    &&& bindings[i].name@ == name
    &&& forall|j: int| i < j < bindings.len() ==> (#[trigger] bindings[j]).name@ != name
}

/// Tells whether no binding is named `name`.
spec fn is_absent(bindings: Seq<Binding>, name: Seq<char>) -> bool {
    forall|j: int| 0 <= j < bindings.len() ==> (#[trigger] bindings[j]).name@ != name
}

proof fn lemma_absent(bindings: Seq<Binding>, name: Seq<char>)
    requires
        is_absent(bindings, name),
    ensures
        !frame_of(bindings).dom().contains(name),
    decreases bindings.len(),
{
    if bindings.len() > 0 {
        let rest = bindings.drop_last();
        assert forall|j: int| 0 <= j < rest.len() implies (#[trigger] rest[j]).name@ != name by {
            assert(rest[j] == bindings[j]);
        }
        lemma_absent(rest, name);
        assert(bindings.last() == bindings[bindings.len() - 1]);
    }
}

proof fn lemma_slot(bindings: Seq<Binding>, name: Seq<char>, i: int)
    requires
        is_slot(bindings, name, i),
    ensures
        frame_of(bindings).dom().contains(name),
        frame_of(bindings)[name] == bindings[i].state@,
    decreases bindings.len(),
{
    if i < bindings.len() - 1 {
        let rest = bindings.drop_last();
        assert forall|j: int| i < j < rest.len() implies (#[trigger] rest[j]).name@ != name by {
            assert(rest[j] == bindings[j]);
        }
        assert(rest[i] == bindings[i]);
        lemma_slot(rest, name, i);
        assert(bindings.last() == bindings[bindings.len() - 1]);
    }
}

proof fn lemma_update(bindings: Seq<Binding>, i: int, b: Binding)
    requires
        is_slot(bindings, b.name@, i),
    ensures
        frame_of(bindings.update(i, b)) == frame_of(bindings).insert(b.name@, b.state@),
    decreases bindings.len(),
{
    let after = bindings.update(i, b);
    let rest = bindings.drop_last();
    if i == bindings.len() - 1 {
        assert(after.drop_last() =~= rest);
        assert(frame_of(after) =~= frame_of(bindings).insert(b.name@, b.state@));
    } else {
        assert forall|j: int| i < j < rest.len() implies (#[trigger] rest[j]).name@ != b.name@ by {
            assert(rest[j] == bindings[j]);
        }
        assert(rest[i] == bindings[i]);
        lemma_update(rest, i, b);
        assert(after.drop_last() =~= rest.update(i, b));
        assert(after.last() == bindings.last());
        assert(bindings.last() == bindings[bindings.len() - 1]);
        assert(frame_of(after) =~= frame_of(bindings).insert(b.name@, b.state@));
    }
}

/// The variables that one block declares.
#[derive(Debug)]
pub struct ScopeFrame {
    bindings: Vec<Binding>,
}

impl View for ScopeFrame {
    type V = Frame;

    closed spec fn view(&self) -> Frame {
        frame_of(self.bindings@)
    }
}

impl ScopeFrame {
    /// A frame that declares nothing.
    pub fn new() -> (frame: ScopeFrame)
        ensures
            frame@ == Map::<Seq<char>, VariableModel>::empty(),
    {
        ScopeFrame { bindings: Vec::new() }
    }

    /// The place of the binding that `name` refers to.
    fn position(&self, name: &str) -> (place: Option<usize>)
        ensures
            match place {
                Some(i) => is_slot(self.bindings@, name@, i as int),
                None => is_absent(self.bindings@, name@),
            },
    {
        let mut i = self.bindings.len();
        while i > 0
            invariant
                i <= self.bindings.len(),
                forall|j: int|
                    i <= j < self.bindings.len() ==> (#[trigger] self.bindings@[j]).name@ != name@,
            decreases i,
        {
            i -= 1;
            if same_text(self.bindings[i].name.as_str(), name) {
                return Some(i);
            }
        }
        None
    }

    /// Tells whether the frame declares `name`.
    pub fn contains(&self, name: &str) -> (found: bool)
        ensures
            found == self@.dom().contains(name@),
    {
        match self.position(name) {
            Some(i) => {
                proof {
                    lemma_slot(self.bindings@, name@, i as int);
                }
                true
            },
            None => {
                proof {
                    lemma_absent(self.bindings@, name@);
                }
                false
            },
        }
    }

    /// The record declared under `name`.
    pub fn get(&self, name: &str) -> (found: Option<&VariableState>)
        ensures
            match found {
                Some(v) => self@.dom().contains(name@) && self@[name@] == v@,
                None => !self@.dom().contains(name@),
            },
    {
        match self.position(name) {
            Some(i) => {
                proof {
                    lemma_slot(self.bindings@, name@, i as int);
                }
                Some(&self.bindings[i].state)
            },
            None => {
                proof {
                    lemma_absent(self.bindings@, name@);
                }
                None
            },
        }
    }

    /// Declares `name` with the record `state`. A record that the frame
    /// held under that name is replaced.
    pub fn insert(&mut self, name: &str, state: VariableState)
        ensures
            final(self)@ == old(self)@.insert(name@, state@),
    {
        match self.position(name) {
            Some(i) => {
                let ghost before = self.bindings@;
                self.bindings[i].state = state;
                proof {
                    assert(self.bindings@ =~= before.update(i as int, self.bindings@[i as int]));
                    lemma_update(before, i as int, self.bindings@[i as int]);
                }
            },
            None => {
                let ghost before = self.bindings@;
                self.bindings.push(Binding { name: String::from_str(name), state });
                proof {
                    assert(self.bindings@.drop_last() =~= before);
                }
            },
        }
    }

    /// Marks the value of `name` as moved away, where the frame declares it.
    pub fn mark_moved(&mut self, name: &str)
        ensures
            final(self)@ == if old(self)@.dom().contains(name@) {
                old(self)@.insert(name@, old(self)@[name@].moved())
            } else {
                old(self)@
            },
    {
        match self.position(name) {
            Some(i) => {
                let ghost before = self.bindings@;
                self.bindings[i].state.consumed = true;
                proof {
                    lemma_slot(before, name@, i as int);
                    assert(self.bindings@ =~= before.update(i as int, self.bindings@[i as int]));
                    lemma_update(before, i as int, self.bindings@[i as int]);
                }
            },
            None => {
                proof {
                    lemma_absent(self.bindings@, name@);
                }
            },
        }
    }

    /// Counts one more borrow of `name`, where the frame declares it.
    pub fn mark_borrowed(&mut self, name: &str)
        ensures
            final(self)@ == if old(self)@.dom().contains(name@) {
                old(self)@.insert(name@, old(self)@[name@].borrowed())
            } else {
                old(self)@
            },
    {
        match self.position(name) {
            Some(i) => {
                let ghost before = self.bindings@;
                let count = self.bindings[i].state.borrow_count;
                if count < usize::MAX {
                    self.bindings[i].state.borrow_count = count + 1;
                }
                proof {
                    lemma_slot(before, name@, i as int);
                    assert(self.bindings@ =~= before.update(i as int, self.bindings@[i as int]));
                    lemma_update(before, i as int, self.bindings@[i as int]);
                }
            },
            None => {
                proof {
                    lemma_absent(self.bindings@, name@);
                }
            },
        }
    }
}

/// The frames of all open blocks, innermost last.
#[derive(Debug)]
pub struct ScopeStack {
    frames: Vec<ScopeFrame>,
}

impl View for ScopeStack {
    type V = Seq<Frame>;

    closed spec fn view(&self) -> Seq<Frame> {
        Seq::new(self.frames@.len(), |i: int| self.frames@[i]@)
    }
}

impl ScopeStack {
    /// A stack with one empty frame, that of the whole program.
    pub fn new() -> (stack: ScopeStack)
        ensures
            stack@ == seq![Map::<Seq<char>, VariableModel>::empty()],
    {
        let mut frames = Vec::new();
        frames.push(ScopeFrame::new());
        let stack = ScopeStack { frames };
        assert(stack@ =~= seq![Map::<Seq<char>, VariableModel>::empty()]);
        stack
    }

    /// The number of open frames.
    pub fn depth(&self) -> (depth: usize)
        ensures
            depth == self@.len(),
    {
        self.frames.len()
    }

    /// Opens a frame for a block that is entered.
    pub fn push_scope(&mut self)
        ensures
            final(self)@ == old(self)@.push(Map::empty()),
    {
        self.frames.push(ScopeFrame::new());
        assert(self@ =~= old(self)@.push(Map::empty()));
    }

    /// Discards the innermost frame with all that it declares. An empty
    /// stack stays empty.
    pub fn pop_scope(&mut self)
        ensures
            final(self)@ == leave(old(self)@),
    {
        let _ = self.frames.pop();
        assert(self@ =~= leave(old(self)@));
    }

    /// The index of the innermost frame that declares `name`.
    fn resolve(&self, name: &str) -> (place: Option<usize>)
        ensures
            match place {
                Some(i) => resolve(self@, name@) == Some(i as int) && i < self@.len()
                    && self@[i as int].dom().contains(name@),
                None => resolve(self@, name@) is None,
            },
    {
        let mut i = self.frames.len();
        assert(self@.subrange(0, i as int) =~= self@);
        while i > 0
            invariant
                i <= self.frames.len(),
                resolve(self@, name@) == resolve(self@.subrange(0, i as int), name@),
            decreases i,
        {
            i -= 1;
            let ghost part = self@.subrange(0, i + 1);
            assert(part.last() == self@[i as int]);
            assert(part.drop_last() =~= self@.subrange(0, i as int));
            if self.frames[i].contains(name) {
                return Some(i);
            }
        }
        assert(self@.subrange(0, 0).len() == 0);
        None
    }

    /// The record that `name` refers to: that of the innermost frame that
    /// declares it.
    pub fn lookup(&self, name: &str) -> (found: Option<&VariableState>)
        ensures
            match found {
                Some(v) => lookup(self@, name@) == Some(v@),
                None => lookup(self@, name@) is None,
            },
    {
        match self.resolve(name) {
            Some(i) => self.frames[i].get(name),
            None => None,
        }
    }

    /// The type name that `name` was declared with.
    pub fn type_of(&self, name: &str) -> (found: Option<&str>)
        ensures
            match found {
                Some(ty) => lookup(self@, name@) is Some && lookup(self@, name@).unwrap().semantic_type
                    == ty@,
                None => lookup(self@, name@) is None,
            },
    {
        match self.lookup(name) {
            Some(v) => Some(v.semantic_type.as_str()),
            None => None,
        }
    }

    /// Declares `name` in the innermost frame, live and unborrowed. An
    /// entry of that frame with the same name is replaced; one of an outer
    /// frame is hidden and stays as it is.
    pub fn declare(&mut self, name: &str, mutable: bool, semantic_type: String, at: Location)
        requires
            old(self)@.len() > 0,
        ensures
            final(self)@ == declare(
                old(self)@,
                name@,
                VariableModel::fresh(mutable, semantic_type@, at),
            ),
    {
        let top = self.frames.len() - 1;
        self.frames[top].insert(name, VariableState::new(mutable, semantic_type, at));
        assert(self@ =~= declare(
            old(self)@,
            name@,
            VariableModel::fresh(mutable, semantic_type@, at),
        ));
    }

    /// Marks the value of `name` as moved away. An undeclared name changes
    /// nothing.
    pub fn consume(&mut self, name: &str)
        ensures
            final(self)@ == consume(old(self)@, name@),
            final(self)@.len() == old(self)@.len(),
    {
        match self.resolve(name) {
            Some(i) => {
                self.frames[i].mark_moved(name);
                assert(self@ =~= consume(old(self)@, name@));
            },
            None => {},
        }
    }

    /// Counts one more borrow of `name`. An undeclared name changes nothing.
    pub fn borrow(&mut self, name: &str)
        ensures
            final(self)@ == borrow(old(self)@, name@),
            final(self)@.len() == old(self)@.len(),
    {
        match self.resolve(name) {
            Some(i) => {
                self.frames[i].mark_borrowed(name);
                assert(self@ =~= borrow(old(self)@, name@));
            },
            None => {},
        }
    }
}

} // verus!
