//! The request that is under way, which a newer one replaces.

use crate::text::same;
use vstd::prelude::*;

verus! {

broadcast use vstd::string::group_string_axioms;

/// The request that is under way, with what stops it.
pub struct ActiveRequest<T> {
    active: Option<(String, T)>,
}

impl<T> View for ActiveRequest<T> {
    type V = Option<(Seq<char>, T)>;

    closed spec fn view(&self) -> Option<(Seq<char>, T)> {
        match self.active {
            Some((id, stop)) => Some((id@, stop)),
            None => None,
        }
    }
}

/// What stops a request.
pub open spec fn stop_of<T>(active: Option<(Seq<char>, T)>) -> Option<T> {
    match active {
        Some((_, stop)) => Some(stop),
        None => None,
    }
}

/// The request that is under way once another has come in.
pub open spec fn replaced<T>(active: Option<(Seq<char>, T)>, id: Seq<char>, stop: T) -> Option<
    (Seq<char>, T),
> {
    Some((id, stop))
}

/// The request that is under way once the one with the id is over.
pub open spec fn without<T>(active: Option<(Seq<char>, T)>, id: Seq<char>) -> Option<
    (Seq<char>, T),
> {
    match active {
        Some((under_way, _)) if under_way == id => None,
        other => other,
    }
}

impl<T> ActiveRequest<T> {
    /// No request is under way.
    pub fn new() -> (r: Self)
        ensures
            r@ is None,
    {
        ActiveRequest { active: None }
    }

    /// Takes note of a request, and returns what stops the one that it replaces.
    pub fn register(&mut self, request_id: &str, stop: T) -> (r: Option<T>)
        ensures
            final(self)@ == replaced(old(self)@, request_id@, stop),
            r == stop_of(old(self)@),
    {
        let before = self.active.take();
        self.active = Some((request_id.to_owned(), stop));
        match before {
            Some((_, old_stop)) => Some(old_stop),
            None => None,
        }
    }

    /// Forgets the request, and returns what stops it.
    pub fn cancel(&mut self) -> (r: Option<T>)
        ensures
            final(self)@ is None,
            r == stop_of(old(self)@),
    {
        match self.active.take() {
            Some((_, stop)) => Some(stop),
            None => None,
        }
    }

    /// Forgets the request with the id; one that has replaced it stays.
    pub fn deregister(&mut self, request_id: &str)
        ensures
            final(self)@ == without(old(self)@, request_id@),
    {
        let mine = match &self.active {
            Some((id, _)) => same(id.as_str(), request_id),
            None => false,
        };
        if mine {
            self.active = None;
        }
    }
}

/// A request that has been replaced cannot take the newer one away when it is over; the newer one
/// itself can.
pub proof fn late_request_takes_none_away<T>(
    active: Option<(Seq<char>, T)>,
    old_id: Seq<char>,
    new_id: Seq<char>,
    old_stop: T,
    new_stop: T,
)
    requires
        old_id != new_id,
    ensures
        ({
            let both = replaced(replaced(active, old_id, old_stop), new_id, new_stop);
            &&& without(both, old_id) == both
            &&& stop_of(without(both, old_id)) == Some(new_stop)
            &&& without(both, new_id) is None
        }),
{
}

} // verus!
