//! Keeping track of what a socket is registered for with the poller.

use mio::Interest;
use vstd::prelude::*;

verus! {

/// `mio::Interest`: the kinds of readiness that a socket is put into the
/// poller for. Nothing of its inside is seen here.
#[verifier::external_type_specification]
#[verifier::external_body]
pub struct ExInterest(Interest);

/// The kinds of readiness that an [`Interest`] holds, each by its bit: 1
/// for readable, 2 for writable, and so on.
pub uninterp spec fn interest_kinds(interest: Interest) -> Set<u8>;

/// The bit of readable readiness.
pub const READABLE: u8 = 1;

/// The bit of writable readiness.
pub const WRITABLE: u8 = 2;

/// `Interest::READABLE`: readable readiness and no other.
#[verifier::external_body]
fn interest_readable() -> (interest: Interest)
    ensures
        interest_kinds(interest) == set![READABLE],
{
    Interest::READABLE
}

/// `Interest::WRITABLE`: writable readiness and no other.
#[verifier::external_body]
fn interest_writable() -> (interest: Interest)
    ensures
        interest_kinds(interest) == set![WRITABLE],
{
    Interest::WRITABLE
}

/// `Interest::add`, also written `|`: the kinds of both.
#[verifier::external_body]
fn interest_add(left: Interest, right: Interest) -> (both: Interest)
    ensures
        interest_kinds(both) == interest_kinds(left).union(interest_kinds(right)),
{
    left.add(right)
}

/// `==` on [`Interest`]: whether both hold the same kinds.
#[verifier::external_body]
fn interest_same(left: &Interest, right: &Interest) -> (same: bool)
    ensures
        same == (interest_kinds(*left) == interest_kinds(*right)),
{
    left == right
}

/// The kinds of readiness that are asked for, if any.
pub open spec fn kinds(interests: Option<Interest>) -> Set<u8> {
    match interests {
        Some(interest) => interest_kinds(interest),
        None => Set::empty(),
    }
}

/// Readable readiness.
pub fn readable() -> (interest: Interest)
    ensures
        interest_kinds(interest) == set![READABLE],
{
    interest_readable()
}

/// Writable readiness.
pub fn writable() -> (interest: Interest)
    ensures
        interest_kinds(interest) == set![WRITABLE],
{
    interest_writable()
}

/// What two sides are interested in, taken together.
pub fn combine_interests(left: Option<Interest>, right: Option<Interest>) -> (both: Option<
    Interest,
>)
    ensures
        both is None <==> left is None && right is None,
        left is None ==> both == right,
        right is None ==> both == left,
        left is Some && right is Some ==> kinds(both) == kinds(left).union(kinds(right)),
{
    match (left, right) {
        (None, x) => x,
        (y, None) => y,
        (Some(x), Some(y)) => Some(interest_add(x, y)),
    }
}

/// What is to be done with the poller to bring a registration up to date.
#[derive(Debug)]
pub enum Registration {
    /// Nothing.
    Keep,
    /// Take the socket out of the poller.
    Deregister,
    /// Put the socket into the poller.
    Register { token: usize, interests: Interest },
    /// Change what the socket is in the poller for.
    Reregister { token: usize, interests: Interest },
}

/// What a [`Registration`] stands for.
pub enum RegistrationView {
    Keep,
    Deregister,
    Register { token: usize, kinds: Set<u8> },
    Reregister { token: usize, kinds: Set<u8> },
}

impl View for Registration {
    type V = RegistrationView;

    open spec fn view(&self) -> RegistrationView {
        match *self {
            Registration::Keep => RegistrationView::Keep,
            Registration::Deregister => RegistrationView::Deregister,
            Registration::Register { token, interests } => RegistrationView::Register {
                token,
                kinds: interest_kinds(interests),
            },
            Registration::Reregister { token, interests } => RegistrationView::Reregister {
                token,
                kinds: interest_kinds(interests),
            },
        }
    }
}

/// A socket as the poller knows it: under which token, and for which
/// readiness.
#[derive(Debug)]
pub struct Registered {
    pub name: Vec<u8>,
    pub token: usize,
    /// Interests we would like to be ready. Will be added
    /// to our Poll Registry if not already in ready.
    pub needed: Option<Interest>,
    /// Interests we have registered with the Poll Registry.
    pub registered: Option<Interest>,
}

/// What a [`Registered`] stands for: in place of the interests, the kinds
/// of readiness that they hold.
pub struct RegisteredView {
    pub name: Seq<u8>,
    pub token: usize,
    pub needed: Option<Set<u8>>,
    pub registered: Option<Set<u8>>,
}

/// The kinds of readiness that interests hold, if there are any.
pub open spec fn kinds_of(interests: Option<Interest>) -> Option<Set<u8>> {
    match interests {
        Some(interest) => Some(interest_kinds(interest)),
        None => None,
    }
}

impl View for Registered {
    type V = RegisteredView;

    open spec fn view(&self) -> RegisteredView {
        RegisteredView {
            name: self.name@,
            token: self.token,
            needed: kinds_of(self.needed),
            registered: kinds_of(self.registered),
        }
    }
}

impl RegisteredView {
    /// A socket that is not in the poller and needs nothing.
    pub open spec fn fresh(name: Seq<u8>, token: usize) -> RegisteredView {
        RegisteredView { name, token, needed: None, registered: None }
    }

    /// Nothing is needed any longer.
    pub open spec fn cleared(self) -> RegisteredView {
        RegisteredView { needed: None, ..self }
    }

    /// These kinds of readiness are needed, besides those needed already.
    pub open spec fn needing(self, kinds: Set<u8>) -> RegisteredView {
        RegisteredView {
            needed: match self.needed {
                Some(needed) => Some(needed.union(kinds)),
                None => Some(kinds),
            },
            ..self
        }
    }

    /// What is to be done to register what is needed.
    pub open spec fn planned(self) -> RegistrationView {
        match (self.registered, self.needed) {
            (None, None) => RegistrationView::Keep,
            (Some(_), None) => RegistrationView::Deregister,
            (None, Some(kinds)) => RegistrationView::Register { token: self.token, kinds },
            (Some(old), Some(new)) => if old != new {
                RegistrationView::Reregister { token: self.token, kinds: new }
            } else {
                RegistrationView::Keep
            },
        }
    }

    /// What is needed is registered.
    pub open spec fn done(self) -> RegisteredView {
        RegisteredView { registered: self.needed, ..self }
    }
}

impl Registered {
    pub fn new(name: Vec<u8>, token: usize) -> (r: Registered)
        ensures
            r@ == RegisteredView::fresh(name@, token),
    {
        Registered { name, token, needed: None, registered: None }
    }

    /// Forget what was needed.
    pub fn clear(&mut self)
        ensures
            final(self)@ == old(self)@.cleared(),
    {
        self.needed = None;
    }

    /// Need these interests, besides those that are needed already.
    pub fn need(&mut self, interests: Interest)
        ensures
            final(self)@ == old(self)@.needing(interest_kinds(interests)),
    {
        self.needed = combine_interests(self.needed, Some(interests));
    }

    /// Note the outcome of an attempt on the socket: if it would have had
    /// to wait, the interests that it waits for are needed.
    pub fn attempt(&mut self, interests: Interest, would_block: bool)
        ensures
            final(self)@ == (if would_block {
                old(self)@.needing(interest_kinds(interests))
            } else {
                old(self)@
            }),
    {
        if would_block {
            self.need(interests)
        }
    }

    /// What is to be done with the poller so that the socket is registered
    /// for what is needed.
    pub fn update_registration(&self) -> (change: Registration)
        ensures
            change@ == self@.planned(),
    {
        match (self.registered, self.needed) {
            (None, None) => Registration::Keep,
            (Some(_), None) => Registration::Deregister,
            (None, Some(interests)) => Registration::Register { token: self.token, interests },
            (Some(old), Some(new)) => {
                if !interest_same(&old, &new) {
                    Registration::Reregister { token: self.token, interests: new }
                } else {
                    Registration::Keep
                }
            },
        }
    }

    /// Note that the poller has done what [`Registered::update_registration`]
    /// asked for.
    pub fn registration_done(&mut self)
        ensures
            final(self)@ == old(self)@.done(),
    {
        self.registered = self.needed;
    }

    /// Forget what was needed, and say what is to be done with the poller
    /// to take the socket out of it.
    pub fn deregister(&mut self) -> (change: Registration)
        ensures
            final(self)@ == old(self)@.cleared(),
            change@ == old(self)@.cleared().planned(),
    {
        self.clear();
        self.update_registration()
    }
}

} // verus!
