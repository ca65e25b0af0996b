//! The screen stack: which screen is active and how screens hand over control.
use vstd::prelude::*;

verus! {

/// What a screen asks of the stack after an update or a click.
pub enum Transition<S> {
    /// Stay on the current screen.
    Stay,
    /// Suspend the current screen under a new one.
    Push(S),
    /// Destroy the current screen and resume the one beneath.
    Pop,
    /// Destroy the current screen and put a new one in its place.
    Replace(S),
}

/// A transition that the stack refuses.
#[derive(Clone, Copy, Debug, PartialEq, Eq, Structural)]
pub enum NavError {
    /// A `Pop` of the only screen: the stack must never be empty.
    PopOfLastScreen,
}

/// The stack that results from applying `t` to `stack`. A `Pop` of the last
/// screen is refused and leaves the stack as it was.
pub open spec fn spec_apply<S>(stack: Seq<S>, t: Transition<S>) -> Seq<S> {
    match t {
        Transition::Stay => stack,
        Transition::Push(s) => stack.push(s),
        Transition::Pop => if stack.len() > 1 {
            stack.drop_last()
        } else {
            stack
        },
        Transition::Replace(s) => if stack.len() > 0 {
            stack.drop_last().push(s)
        } else {
            stack.push(s)
        },
    }
}

/// Whether the stack refuses `t`.
pub open spec fn spec_refuses<S>(stack: Seq<S>, t: Transition<S>) -> bool {
    t is Pop && stack.len() <= 1
}

/// The stack after applying each transition of `ts` in turn.
pub open spec fn spec_apply_all<S>(stack: Seq<S>, ts: Seq<Transition<S>>) -> Seq<S>
    decreases ts.len(),
{
    if ts.len() == 0 {
        stack
    } else {
        spec_apply_all(spec_apply(stack, ts[0]), ts.subrange(1, ts.len() as int))
    }
}

/// An ordered stack of screens; the last one is the active one.
pub struct Navigator<S> {
    screens: Vec<S>,
}

impl<S> View for Navigator<S> {
    type V = Seq<S>;

    closed spec fn view(&self) -> Seq<S> {
        self.screens@
    }
}

impl<S> Navigator<S> {
    /// The stack holds at least one screen.
    pub open spec fn wf(&self) -> bool {
        self@.len() >= 1
    }

    /// A stack that holds the start screen alone.
    pub fn new(start_screen: S) -> (r: Navigator<S>)
        ensures
            r@ == seq![start_screen],
            r.wf(),
    {
        let mut screens = Vec::new();
        screens.push(start_screen);
        Navigator { screens }
    }

    /// How many screens the stack holds.
    pub fn len(&self) -> (r: usize)
        ensures
            r == self@.len(),
    {
        self.screens.len()
    }

    /// The active screen.
    pub fn top(&self) -> (r: &S)
        requires
            self.wf(),
        ensures
            *r == self@.last(),
    {
        let last = self.screens.len() - 1;
        &self.screens[last]
    }

    /// The active screen, to be updated, clicked or resized.
    pub fn top_mut(&mut self) -> (r: &mut S)
        requires
            old(self).wf(),
        ensures
            *r == old(self)@.last(),
            final(self)@ == old(self)@.update(old(self)@.len() - 1, *final(r)),
    {
        let last = self.screens.len() - 1;
        &mut self.screens[last]
    }

    /// Applies what the active screen asked for.
    ///
    /// A `Pop` of the only screen is refused with `PopOfLastScreen`, which the
    /// application must treat as fatal; the stack is then left as it was.
    pub fn apply(&mut self, t: Transition<S>) -> (r: Result<(), NavError>)
        requires
            old(self).wf(),
        ensures
            final(self).wf(),
            final(self)@ == spec_apply(old(self)@, t),
            r is Err <==> spec_refuses(old(self)@, t),
            r is Err ==> r == Err::<(), NavError>(NavError::PopOfLastScreen),
    {
        match t {
            Transition::Stay => Ok(()),
            Transition::Push(s) => {
                self.screens.push(s);
                Ok(())
            },
            Transition::Pop => {
                if self.screens.len() > 1 {
                    let _ = self.screens.pop();
                    Ok(())
                } else {
                    Err(NavError::PopOfLastScreen)
                }
            },
            Transition::Replace(s) => {
                let _ = self.screens.pop();
                self.screens.push(s);
                Ok(())
            },
        }
    }
}

/// Whatever transitions are applied, in whatever order, the stack never holds
/// fewer than one screen: a `Pop` that would empty it is refused instead.
pub proof fn lemma_stack_never_empty<S>(stack: Seq<S>, ts: Seq<Transition<S>>)
    requires
        stack.len() >= 1,
    ensures
        spec_apply_all(stack, ts).len() >= 1,
    decreases ts.len(),
{
    if ts.len() > 0 {
        lemma_stack_never_empty(spec_apply(stack, ts[0]), ts.subrange(1, ts.len() as int));
    }
}

} // verus!
