//! Call parameters of a transaction: the entrypoint, and the argument as
//! forged script data, carried as bytes.
use vstd::prelude::*;
use crate::consumable::ConsumableBytes;
use crate::error::Error;

verus! {

/// Which entrypoint of the contract is called.
pub enum EntrypointView {
    Default,
    Root,
    Do,
    SetDelegate,
    RemoveDelegate,
    Named(Seq<u8>),
}

/// Which entrypoint of the contract is called; a name other than the
/// built-in ones is kept as its bytes.
#[derive(Debug, Clone, PartialEq, Eq)]
pub enum Entrypoint {
    Default,
    Root,
    Do,
    SetDelegate,
    RemoveDelegate,
    Named(Vec<u8>),
}

impl View for Entrypoint {
    type V = EntrypointView;

    open spec fn view(&self) -> EntrypointView {
        match self {
            Entrypoint::Default => EntrypointView::Default,
            Entrypoint::Root => EntrypointView::Root,
            Entrypoint::Do => EntrypointView::Do,
            Entrypoint::SetDelegate => EntrypointView::SetDelegate,
            Entrypoint::RemoveDelegate => EntrypointView::RemoveDelegate,
            Entrypoint::Named(n) => EntrypointView::Named(n@),
        }
    }
}

/// Longest entrypoint name.
pub const MAX_ENTRYPOINT_LENGTH: usize = 31;

pub open spec fn entrypoint_wf(e: EntrypointView) -> bool {
    match e {
        EntrypointView::Named(n) => n.len() <= MAX_ENTRYPOINT_LENGTH,
        _ => true,
    }
}

/// A built-in entrypoint is one byte; a named one is `255`, the length of
/// the name and the name.
pub open spec fn forged_entrypoint(e: EntrypointView) -> Seq<u8> {
    match e {
        EntrypointView::Default => seq![0u8],
        EntrypointView::Root => seq![1u8],
        EntrypointView::Do => seq![2u8],
        EntrypointView::SetDelegate => seq![3u8],
        EntrypointView::RemoveDelegate => seq![4u8],
        EntrypointView::Named(n) => seq![255u8, n.len() as u8] + n,
    }
}

pub open spec fn parse_entrypoint(s: Seq<u8>) -> Option<(EntrypointView, Seq<u8>)> {
    if s.len() == 0 {
        None
    } else if s[0] == 0 {
        Some((EntrypointView::Default, s.drop_first()))
    } else if s[0] == 1 {
        Some((EntrypointView::Root, s.drop_first()))
    } else if s[0] == 2 {
        Some((EntrypointView::Do, s.drop_first()))
    } else if s[0] == 3 {
        Some((EntrypointView::SetDelegate, s.drop_first()))
    } else if s[0] == 4 {
        Some((EntrypointView::RemoveDelegate, s.drop_first()))
    } else if s[0] == 255 && s.len() >= 2 && s[1] <= MAX_ENTRYPOINT_LENGTH && s.len() >= 2
        + s[1] {
        Some((EntrypointView::Named(s.subrange(2, 2 + s[1])), s.skip(2 + s[1])))
    } else {
        None
    }
}

/// A length as four big-endian bytes.
pub open spec fn be32(n: u32) -> Seq<u8> {
    seq![(n >> 24u32) as u8, (n >> 16u32) as u8, (n >> 8u32) as u8, n as u8]
}

pub open spec fn be32_value(s: Seq<u8>) -> u32 {
    ((s[0] as u32) << 24u32) | ((s[1] as u32) << 16u32) | ((s[2] as u32) << 8u32) | (s[3] as u32)
}

pub struct ParametersView {
    pub entrypoint: EntrypointView,
    pub value: Seq<u8>,
}

pub open spec fn parameters_wf(p: ParametersView) -> bool {
    entrypoint_wf(p.entrypoint) && p.value.len() <= u32::MAX
}

/// The entrypoint, the length of the argument, then the argument.
pub open spec fn forged_parameters(p: ParametersView) -> Seq<u8> {
    forged_entrypoint(p.entrypoint) + be32(p.value.len() as u32) + p.value
}

pub open spec fn parse_parameters(s: Seq<u8>) -> Option<(ParametersView, Seq<u8>)> {
    match parse_entrypoint(s) {
        None => None,
        Some((entrypoint, r1)) => if r1.len() >= 4 && r1.len() >= 4 + be32_value(r1) {
            let n = be32_value(r1) as int;
            Some((ParametersView { entrypoint, value: r1.subrange(4, 4 + n) }, r1.skip(4 + n)))
        } else {
            None
        },
    }
}

/// Absent parameters are `0`; present ones are `255` and the parameters.
pub open spec fn forged_optional_parameters(p: Option<ParametersView>) -> Seq<u8> {
    match p {
        Some(p) => seq![255u8] + forged_parameters(p),
        None => seq![0u8],
    }
}

pub open spec fn parse_optional_parameters(s: Seq<u8>) -> Option<
    (Option<ParametersView>, Seq<u8>),
> {
    if s.len() == 0 {
        None
    } else if s[0] == 0 {
        Some((None, s.drop_first()))
    } else if s[0] == 255 {
        match parse_parameters(s.drop_first()) {
            Some((p, rest)) => Some((Some(p), rest)),
            None => None,
        }
    } else {
        None
    }
}

proof fn lemma_be32_round_trip(n: u32)
    ensures
        be32_value(be32(n)) == n,
{
    let s = be32(n);
    assert(s[0] == (n >> 24u32) as u8 && s[1] == (n >> 16u32) as u8 && s[2] == (n >> 8u32) as u8
        && s[3] == n as u8);
    assert(((((n >> 24u32) as u8) as u32) << 24u32) | ((((n >> 16u32) as u8) as u32) << 16u32)
        | ((((n >> 8u32) as u8) as u32) << 8u32) | (((n as u8) as u32)) == n) by (bit_vector);
}

/// Reading back forged parameters, with any bytes after them, gives the same
/// parameters and leaves exactly those bytes.
pub proof fn lemma_parameters_round_trip(p: Option<ParametersView>, rest: Seq<u8>)
    requires
        p is Some ==> parameters_wf(p->Some_0),
    ensures
        parse_optional_parameters(forged_optional_parameters(p) + rest) == Some((p, rest)),
{
    let s = forged_optional_parameters(p) + rest;
    match p {
        None => {
            assert(s.drop_first() =~= rest);
        },
        Some(q) => {
            let len = q.value.len() as u32;
            let r1 = be32(len) + q.value + rest;
            let t = s.drop_first();
            assert(t =~= forged_entrypoint(q.entrypoint) + r1);
            match q.entrypoint {
                EntrypointView::Named(name) => {
                    assert(t[1] == name.len() as u8);
                    assert(t.subrange(2, 2 + name.len() as int) =~= name);
                    assert(t.skip(2 + name.len() as int) =~= r1);
                },
                _ => {
                    assert(t.drop_first() =~= r1);
                },
            }
            lemma_be32_round_trip(len);
            assert(r1.subrange(0, 4) =~= be32(len));
            assert(be32_value(r1) == be32_value(be32(len)));
            assert(r1.subrange(4, 4 + len as int) =~= q.value);
            assert(r1.skip(4 + len as int) =~= rest);
        },
    }
}

/// The parameters of a contract call.
#[derive(Debug, PartialEq, Eq)]
pub struct Parameters {
    entrypoint: Entrypoint,
    value: Vec<u8>,
}

impl View for Parameters {
    type V = ParametersView;

    closed spec fn view(&self) -> ParametersView {
        ParametersView { entrypoint: self.entrypoint@, value: self.value@ }
    }
}

impl Clone for Parameters {
    fn clone(&self) -> (r: Self)
        ensures
            r@ == self@,
    {
        proof {
            use_type_invariant(self);
        }
        let entrypoint = match &self.entrypoint {
            Entrypoint::Default => Entrypoint::Default,
            Entrypoint::Root => Entrypoint::Root,
            Entrypoint::Do => Entrypoint::Do,
            Entrypoint::SetDelegate => Entrypoint::SetDelegate,
            Entrypoint::RemoveDelegate => Entrypoint::RemoveDelegate,
            Entrypoint::Named(n) => Entrypoint::Named(n.clone()),
        };
        Parameters { entrypoint, value: self.value.clone() }
    }
}

/// Appends `b` to `out`.
pub(crate) fn append_bytes(out: &mut Vec<u8>, b: &Vec<u8>)
    ensures
        final(out)@ == old(out)@ + b@,
{
    let mut i: usize = 0;
    proof {
        assert(out@ =~= old(out)@ + b@.subrange(0, 0));
    }
    while i < b.len()
        invariant
            i <= b@.len(),
            out@ == old(out)@ + b@.subrange(0, i as int),
        decreases b@.len() - i,
    {
        out.push(b[i]);
        i = i + 1;
        proof {
            assert(out@ =~= old(out)@ + b@.subrange(0, i as int));
        }
    }
    proof {
        assert(b@.subrange(0, b@.len() as int) =~= b@);
    }
}

impl Parameters {
    #[verifier::type_invariant]
    spec fn inv(&self) -> bool {
        parameters_wf(ParametersView { entrypoint: self.entrypoint@, value: self.value@ })
    }

    /// Parameters from an entrypoint and the forged argument; fails where the
    /// name is longer than `MAX_ENTRYPOINT_LENGTH` or the argument does not
    /// fit a 32-bit length.
    pub fn new(entrypoint: Entrypoint, value: Vec<u8>) -> (r: Result<Parameters, Error>)
        ensures
            parameters_wf(ParametersView { entrypoint: entrypoint@, value: value@ }) ==> r is Ok
                && r->Ok_0@ == (ParametersView { entrypoint: entrypoint@, value: value@ }),
            !parameters_wf(ParametersView { entrypoint: entrypoint@, value: value@ }) ==> r
                == Err::<Parameters, Error>(Error::InvalidBytes),
    {
        if let Entrypoint::Named(n) = &entrypoint {
            if n.len() > MAX_ENTRYPOINT_LENGTH {
                return Err(Error::InvalidBytes);
            }
        }
        if value.len() > 0xffff_ffff {
            return Err(Error::InvalidBytes);
        }
        Ok(Parameters { entrypoint, value })
    }

    pub fn entrypoint(&self) -> (r: &Entrypoint)
        ensures
            r@ == self@.entrypoint,
    {
        &self.entrypoint
    }

    pub fn value(&self) -> (r: &Vec<u8>)
        ensures
            r@ == self@.value,
    {
        &self.value
    }

    /// Appends the forged parameters.
    pub fn forge_into(&self, out: &mut Vec<u8>)
        ensures
            final(out)@ == old(out)@ + forged_parameters(self@),
            parameters_wf(self@),
    {
        proof {
            use_type_invariant(self);
        }
        let ghost start = out@;
        match &self.entrypoint {
            Entrypoint::Default => out.push(0u8),
            Entrypoint::Root => out.push(1u8),
            Entrypoint::Do => out.push(2u8),
            Entrypoint::SetDelegate => out.push(3u8),
            Entrypoint::RemoveDelegate => out.push(4u8),
            Entrypoint::Named(n) => {
                out.push(255u8);
                out.push(n.len() as u8);
                append_bytes(out, n);
            },
        }
        proof {
            assert(out@ =~= start + forged_entrypoint(self.entrypoint@));
        }
        let len = self.value.len() as u32;
        out.push((len >> 24u32) as u8);
        out.push((len >> 16u32) as u8);
        out.push((len >> 8u32) as u8);
        out.push(len as u8);
        append_bytes(out, &self.value);
        proof {
            assert(final(out)@ =~= start + forged_parameters(self@));
        }
    }

    /// Reads parameters from the front of `bytes`.
    pub fn from_consumable_bytes(bytes: &mut ConsumableBytes) -> (r: Result<Parameters, Error>)
        ensures
            parse_parameters(old(bytes)@) is Some ==> r is Ok && r->Ok_0@ == parse_parameters(
                old(bytes)@,
            )->Some_0.0 && final(bytes)@ == parse_parameters(old(bytes)@)->Some_0.1,
            parse_parameters(old(bytes)@) is None ==> r == Err::<Parameters, Error>(
                Error::InvalidBytes,
            ),
    {
        let ghost s = bytes@;
        let tag = match bytes.consume_first() {
            Ok(t) => t,
            Err(e) => {
                return Err(e);
            },
        };
        let entrypoint = if tag == 0 {
            Entrypoint::Default
        } else if tag == 1 {
            Entrypoint::Root
        } else if tag == 2 {
            Entrypoint::Do
        } else if tag == 3 {
            Entrypoint::SetDelegate
        } else if tag == 4 {
            Entrypoint::RemoveDelegate
        } else if tag == 255 {
            let ghost t = bytes@;
            let n = match bytes.consume_first() {
                Ok(n) => n,
                Err(e) => {
                    return Err(e);
                },
            };
            if n as usize > MAX_ENTRYPOINT_LENGTH {
                return Err(Error::InvalidBytes);
            }
            let name = match bytes.consume_first_n(n as usize) {
                Ok(v) => v,
                Err(e) => {
                    return Err(e);
                },
            };
            proof {
                assert(name@ =~= s.subrange(2, 2 + n));
                assert(bytes@ =~= s.skip(2 + n));
            }
            Entrypoint::Named(name)
        } else {
            return Err(Error::InvalidBytes);
        };
        let ghost r1 = bytes@;
        let head = match bytes.consume_first_n(4) {
            Ok(h) => h,
            Err(e) => {
                return Err(e);
            },
        };
        let len: u32 = ((head[0] as u32) << 24u32) | ((head[1] as u32) << 16u32) | ((head[2] as u32)
            << 8u32) | (head[3] as u32);
        proof {
            assert(head@ =~= r1.subrange(0, 4));
            assert(len == be32_value(r1));
        }
        let value = match bytes.consume_first_n(len as usize) {
            Ok(v) => v,
            Err(e) => {
                return Err(e);
            },
        };
        proof {
            assert(value@ =~= r1.subrange(4, 4 + len));
            assert(bytes@ =~= r1.skip(4 + len));
            assert(r1 == parse_entrypoint(s)->Some_0.1);
        }
        Ok(Parameters { entrypoint, value })
    }
}

} // verus!
