//! The frames of a run.
//!
//! A frame holds the variables of one scope and names the frame of the
//! scope around it, its parent.  All the frames of a run are kept in one
//! [`Environment`], where a frame is known by its index, and the parent of a
//! frame always has a smaller index than the frame.

use crate::tree_walking::value::{Value, ValueView};
use vstd::hash_map::StringHashMap;
use vstd::prelude::*;

verus! {

/// A frame.
pub struct Frame<'a> {
    values: StringHashMap<Value<'a>>,
    parent: Option<usize>,
}

/// The mathematical model of a [`Frame`].
#[verifier::ext_equal]
pub struct FrameView {
    /// The variables of the frame, by name.
    pub values: Map<Seq<char>, ValueView>,
    /// The index of the frame around this one, if there is one.
    pub parent: Option<nat>,
}

impl<'a> View for Frame<'a> {
    type V = FrameView;

    closed spec fn view(&self) -> FrameView {
        FrameView {
            values: Map::new(
                |name: Seq<char>| self.values@.contains_key(name),
                |name: Seq<char>| self.values@[name]@,
            ),
            parent: match self.parent {
                Some(parent) => Some(parent as nat),
                None => None,
            },
        }
    }
}

/// The frames of a run.
pub struct Environment<'a> {
    frames: Vec<Frame<'a>>,
}

impl<'a> View for Environment<'a> {
    type V = Seq<FrameView>;

    closed spec fn view(&self) -> Seq<FrameView> {
        Seq::new(self.frames@.len(), |i: int| self.frames@[i]@)
    }
}

/// The parent of every frame comes before the frame.
pub open spec fn well_formed(frames: Seq<FrameView>) -> bool {
    forall|i: int|
        0 <= i < frames.len() ==> ((#[trigger] frames[i]).parent matches Some(parent) ==> parent
            < i)
}

/// The frame that stands `distance` parents above the frame `frame`, if the
/// chain of parents is that long.
pub open spec fn ancestor(frames: Seq<FrameView>, frame: nat, distance: nat) -> Option<nat>
    decreases distance,
{
    if frame >= frames.len() {
        None
    } else if distance == 0 {
        Some(frame)
    } else {
        match frames[frame as int].parent {
            Some(parent) => ancestor(frames, parent, (distance - 1) as nat),
            None => None,
        }
    }
}

/// The frames, with `name` bound to `value` in the frame `frame`.
pub open spec fn bind(frames: Seq<FrameView>, frame: nat, name: Seq<char>, value: ValueView) -> Seq<
    FrameView,
> {
    if frame < frames.len() {
        frames.update(
            frame as int,
            FrameView {
                values: frames[frame as int].values.insert(name, value),
                parent: frames[frame as int].parent,
            },
        )
    } else {
        frames
    }
}

/// The value of `name` in the frame that stands `distance` parents above
/// `frame`, if there is such a frame and it holds `name`.
pub open spec fn lookup(frames: Seq<FrameView>, frame: nat, name: Seq<char>, distance: nat) -> Option<
    ValueView,
> {
    match ancestor(frames, frame, distance) {
        Some(at) => if frames[at as int].values.contains_key(name) {
            Some(frames[at as int].values[name])
        } else {
            None
        },
        None => None,
    }
}

/// The frames, with a new and empty frame below `parent` at their end.
pub open spec fn extend(frames: Seq<FrameView>, parent: Option<nat>) -> Seq<FrameView> {
    frames.push(FrameView { values: Map::empty(), parent })
}

impl<'a> Environment<'a> {
    /// The parent of every frame comes before the frame.
    pub open spec fn wf(&self) -> bool {
        well_formed(self@)
    }

    /// No frame at all.
    pub fn new() -> (environment: Self)
        ensures
            environment@ == Seq::<FrameView>::empty(),
            environment.wf(),
    {
        Environment { frames: Vec::new() }
    }

    /// How many frames there are.
    pub fn len(&self) -> (count: usize)
        ensures
            count == self@.len(),
    {
        self.frames.len()
    }

    /// Adds an empty frame below `parent`, and tells its index.
    pub fn open(&mut self, parent: Option<usize>) -> (frame: usize)
        requires
            old(self).wf(),
            parent matches Some(p) ==> p < old(self)@.len(),
        ensures
            final(self).wf(),
            frame == old(self)@.len(),
            final(self)@ == extend(
                old(self)@,
                match parent {
                    Some(p) => Some(p as nat),
                    None => None,
                },
            ),
    {
        let frame = self.frames.len();
        self.frames.push(Frame { values: StringHashMap::new(), parent });
        assert(self@[frame as int].values =~= Map::<Seq<char>, ValueView>::empty());
        assert(self@ =~= extend(
            old(self)@,
            match parent {
                Some(p) => Some(p as nat),
                None => None,
            },
        ));
        frame
    }

    /// The frame that stands `distance` parents above `frame`, if the chain
    /// of parents is that long.
    pub fn execute_at(&self, frame: usize, distance: usize) -> (found: Option<usize>)
        requires
            self.wf(),
        ensures
            match found {
                Some(at) => ancestor(self@, frame as nat, distance as nat) == Some(at as nat)
                    && at < self@.len(),
                None => ancestor(self@, frame as nat, distance as nat) is None,
            },
    {
        let mut at = frame;
        let mut left = distance;
        loop
            invariant
                self.wf(),
                ancestor(self@, at as nat, left as nat) == ancestor(
                    self@,
                    frame as nat,
                    distance as nat,
                ),
            decreases left,
        {
            if at >= self.frames.len() {
                return None;
            }
            if left == 0 {
                return Some(at);
            }
            match self.frames[at].parent {
                Some(parent) => {
                    at = parent;
                    left = left - 1;
                },
                None => {
                    return None;
                },
            }
        }
    }

    /// Binds `identifier` to `value` in the frame `frame`, which must exist.
    pub fn define(&mut self, frame: usize, identifier: &str, value: Value<'a>)
        requires
            old(self).wf(),
            frame < old(self)@.len(),
        ensures
            final(self).wf(),
            final(self)@ == bind(old(self)@, frame as nat, identifier@, value@),
    {
        self.frames[frame].values.insert(identifier.to_owned(), value);
        assert(self@[frame as int].values =~= old(self)@[frame as int].values.insert(
            identifier@,
            value@,
        ));
        assert(self@ =~= bind(old(self)@, frame as nat, identifier@, value@));
    }

    /// Binds `identifier` to `value` in the frame that stands `distance`
    /// parents above `frame`, and hands the value back; where the chain of
    /// parents is not that long, nothing changes and nothing is handed back.
    pub fn assign(&mut self, frame: usize, identifier: &str, value: Value<'a>, distance: usize) -> (assigned:
        Option<Value<'a>>)
        requires
            old(self).wf(),
        ensures
            final(self).wf(),
            match ancestor(old(self)@, frame as nat, distance as nat) {
                Some(at) => assigned == Some(value) && final(self)@ == bind(
                    old(self)@,
                    at,
                    identifier@,
                    value@,
                ),
                None => assigned is None && final(self)@ == old(self)@,
            },
    {
        match self.execute_at(frame, distance) {
            Some(at) => {
                let copy = value.duplicate();
                self.define(at, identifier, value);
                Some(copy)
            },
            None => None,
        }
    }

    /// The value of `identifier` in the frame that stands `distance` parents
    /// above `frame`, if there is such a frame and it holds `identifier`.
    pub fn get(&self, frame: usize, identifier: &str, distance: usize) -> (value: Option<Value<'a>>)
        requires
            self.wf(),
        ensures
            match value {
                Some(found) => lookup(self@, frame as nat, identifier@, distance as nat) == Some(
                    found@,
                ),
                None => lookup(self@, frame as nat, identifier@, distance as nat) is None,
            },
    {
        match self.execute_at(frame, distance) {
            Some(at) => match self.frames[at].values.get(identifier) {
                Some(value) => Some(value.duplicate()),
                None => None,
            },
            None => None,
        }
    }
}

} // verus!
