//! The identity of a caller: the bytes of an Internet Computer principal,
//! with its text form left to the `candid` crate.

use candid::Principal;
use crate::table::{Key, Record};
use vstd::prelude::*;
use vstd::slice::slice_to_vec;

verus! {

/// The longest principal, in bytes.
pub const MAX_PRINCIPAL_LEN: usize = 29;

/// The text that `candid` prints for the principal made of `bytes`.
pub uninterp spec fn principal_text(bytes: Seq<u8>) -> Seq<char>;

/// The bytes of the principal that `candid` reads from `text`, where it reads
/// one.
pub uninterp spec fn principal_parse(text: Seq<char>) -> Option<Seq<u8>>;

/// The bytes of the principal that stands for a caller without identity.
pub open spec fn anonymous_bytes() -> Seq<u8> {
    seq![4u8]
}

/// `candid::Principal::from_text`, with the principal handed back as its
/// bytes. Not proved: that the parse is a function of the text alone, named
/// `principal_parse`, and that a principal it yields has at most 29 bytes.
#[verifier::external_body]
fn parse_text(text: &str) -> (r: Option<Vec<u8>>)
    ensures
        match r {
            Some(bytes) => principal_parse(text@) == Some(bytes@) && bytes@.len()
                <= MAX_PRINCIPAL_LEN,
            None => principal_parse(text@) is None,
        },
{
    match Principal::from_text(text) {
        Ok(p) => Some(p.as_slice().to_vec()),
        Err(_) => None,
    }
}

/// `candid::Principal::to_text` on the principal made of `bytes`. Not proved:
/// that the text is a function of the bytes alone, named `principal_text`.
#[verifier::external_body]
fn render_text(bytes: &[u8]) -> (r: String)
    requires
        bytes@.len() <= MAX_PRINCIPAL_LEN,
    ensures
        r@ == principal_text(bytes@),
{
    Principal::from_slice(bytes).to_text()
}

/// `candid::Principal::anonymous`, as its bytes. Not proved: that they are
/// the single byte 4.
#[verifier::external_body]
fn anonymous_principal() -> (r: Vec<u8>)
    ensures
        r@ == anonymous_bytes(),
{
    Principal::anonymous().as_slice().to_vec()
}

/// A principal, held as its bytes: at most 29 of them. Its view is the
/// sequence of these bytes.
#[derive(Debug, PartialEq, Eq)]
pub struct PrincipalId {
    bytes: Vec<u8>,
}

impl View for PrincipalId {
    type V = Seq<u8>;

    closed spec fn view(&self) -> Seq<u8> {
        self.bytes@
    }
}

impl PrincipalId {
    #[verifier::type_invariant]
    spec fn bounded(self) -> bool {
        self.bytes@.len() <= MAX_PRINCIPAL_LEN
    }

    /// The principal made of `bytes`, where they are few enough.
    pub fn from_slice(bytes: &[u8]) -> (r: Option<PrincipalId>)
        ensures
            r is Some <==> bytes@.len() <= MAX_PRINCIPAL_LEN,
            r matches Some(p) ==> p@ == bytes@,
    {
        if bytes.len() <= MAX_PRINCIPAL_LEN {
            Some(PrincipalId { bytes: slice_to_vec(bytes) })
        } else {
            None
        }
    }

    /// The principal that `text` denotes, where it denotes one.
    pub fn from_text(text: &str) -> (r: Option<PrincipalId>)
        ensures
            match r {
                Some(p) => principal_parse(text@) == Some(p@),
                None => principal_parse(text@) is None,
            },
    {
        match parse_text(text) {
            Some(bytes) => Some(PrincipalId { bytes }),
            None => None,
        }
    }

    /// The text form of the principal.
    pub fn to_text(&self) -> (r: String)
        ensures
            r@ == principal_text(self@),
    {
        proof {
            use_type_invariant(self);
        }
        render_text(self.bytes.as_slice())
    }

    /// The principal of a caller without identity.
    pub fn anonymous() -> (r: PrincipalId)
        ensures
            r@ == anonymous_bytes(),
    {
        PrincipalId { bytes: anonymous_principal() }
    }

    /// Whether this is the principal of a caller without identity.
    pub fn is_anonymous(&self) -> (r: bool)
        ensures
            r == (self@ == anonymous_bytes()),
    {
        let anonymous = PrincipalId::anonymous();
        self.same(&anonymous)
    }

    /// The bytes of the principal.
    pub fn as_bytes(&self) -> (r: &Vec<u8>)
        ensures
            r@ == self@,
            r@.len() <= MAX_PRINCIPAL_LEN,
    {
        proof {
            use_type_invariant(self);
        }
        &self.bytes
    }
}

impl Record for PrincipalId {
    fn duplicate(&self) -> (r: PrincipalId) {
        proof {
            use_type_invariant(self);
        }
        PrincipalId { bytes: slice_to_vec(self.bytes.as_slice()) }
    }
}

impl Key for PrincipalId {
    fn same(&self, other: &PrincipalId) -> (r: bool) {
        if self.bytes.len() != other.bytes.len() {
            return false;
        }
        let mut i: usize = 0;
        while i < self.bytes.len()
            invariant
                i <= self.bytes.len(),
                self.bytes.len() == other.bytes.len(),
                forall|j: int| 0 <= j < i ==> self.bytes@[j] == other.bytes@[j],
            decreases self.bytes.len() - i,
        {
            if self.bytes[i] != other.bytes[i] {
                return false;
            }
            i += 1;
        }
        assert(self.bytes@ =~= other.bytes@);
        true
    }
}

impl Clone for PrincipalId {
    fn clone(&self) -> (r: PrincipalId)
        ensures
            r@ == self@,
    {
        self.duplicate()
    }
}

/// A caller as the calls see it: the principal, and the text that stands for
/// it in records and in messages.
#[derive(Debug, PartialEq, Eq)]
pub struct Caller {
    pub principal: PrincipalId,
    pub text: String,
}

pub struct CallerView {
    pub principal: Seq<u8>,
    pub text: Seq<char>,
}

impl View for Caller {
    type V = CallerView;

    open spec fn view(&self) -> CallerView {
        CallerView { principal: self.principal@, text: self.text@ }
    }
}

impl Caller {
    /// The caller with the principal `principal`, under the text form of
    /// that principal.
    pub fn new(principal: PrincipalId) -> (r: Caller)
        ensures
            r@ == (CallerView { principal: principal@, text: principal_text(principal@) }),
    {
        let text = principal.to_text();
        Caller { principal, text }
    }
}

impl Record for Caller {
    fn duplicate(&self) -> (r: Caller) {
        Caller { principal: self.principal.duplicate(), text: self.text.clone() }
    }
}

impl Clone for Caller {
    fn clone(&self) -> (r: Caller)
        ensures
            r@ == self@,
    {
        self.duplicate()
    }
}

} // verus!
