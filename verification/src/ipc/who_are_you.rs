//! The discovery request of the presence protocol.

use vstd::prelude::*;

verus! {

/// Mathematical value of a [`Who`].
pub enum WhoView {
    All,
    Id(Seq<char>),
}

/// Which devices are asked to identify themselves.
pub enum Who {
    All,
    Id(String),
}

impl View for Who {
    type V = WhoView;

    open spec fn view(&self) -> WhoView {
        match self {
            Who::All => WhoView::All,
            Who::Id(id) => WhoView::Id(id@),
        }
    }
}

/// What the asked devices are expected to reply with.
#[derive(Clone, Copy, PartialEq, Eq, Structural, Debug)]
pub enum What {
    All,
}

/// Mathematical value of a [`WhoAreYou`].
pub struct WhoAreYouView {
    pub who: WhoView,
    pub what: What,
}

/// A discovery request: who is asked, and for what.
pub struct WhoAreYou {
    who: Who,
    what: What,
}

impl View for WhoAreYou {
    type V = WhoAreYouView;

    closed spec fn view(&self) -> WhoAreYouView {
        WhoAreYouView { who: self.who@, what: self.what }
    }
}

impl WhoAreYou {
    pub fn new(who: Who, what: What) -> (r: WhoAreYou)
        ensures
            r@ == (WhoAreYouView { who: who@, what }),
    {
        WhoAreYou { who, what }
    }

    pub fn get_who(&self) -> (r: &Who)
        ensures
            r@ == self@.who,
    {
        &self.who
    }

    pub fn get_what(&self) -> (r: &What)
        ensures
            *r == self@.what,
    {
        &self.what
    }
}

} // verus!
