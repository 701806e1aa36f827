//! The codec boundary as the core sees it: events and commands go out as
//! opaque bytes, tagged by their type.  Wire formats live outside this
//! crate; the core never inspects payload internals.

use vstd::prelude::*;
use crate::command_main::MyCommand;
use crate::event::MyEvent;

verus! {

/// An error raised at the codec boundary.
#[derive(Debug)]
pub struct CodecError(pub String);

/// Encoding and decoding of events to and from bytes.
pub trait EventCodec {
    fn marshal_event(&self, event: &MyEvent) -> Result<Vec<u8>, CodecError>;

    fn unmarshal_event(&self, data: &Vec<u8>) -> Result<MyEvent, CodecError>;
}

/// Encoding and decoding of commands to and from bytes.
pub trait CommandCodec {
    fn marshal_command(&self, command: &MyCommand) -> Result<Vec<u8>, CodecError>;

    fn unmarshal_command(&self, data: &Vec<u8>) -> Result<MyCommand, CodecError>;
}

/// The core-side event codec: it hands out the event's opaque payload
/// unchanged and leaves decoding to the wire codecs outside the core,
/// which alone know the concrete formats.
#[derive(Debug)]
pub struct MyEventCodec;

impl EventCodec for MyEventCodec {
    /// Marshals the event to its payload bytes, unchanged.
    fn marshal_event(&self, event: &MyEvent) -> (r: Result<Vec<u8>, CodecError>)
        ensures
            r is Ok,
            r->Ok_0@ == event@.data,
    {
        Ok(crate::event::clone_bytes(&event.data.bytes))
    }

    /// Rebuilding a typed event needs the wire codecs outside the core;
    /// the core-side codec always declines.
    fn unmarshal_event(&self, _data: &Vec<u8>) -> (r: Result<MyEvent, CodecError>)
        ensures
            r is Err,
    {
        Err(CodecError(String::from_str("event decoding lives outside the core")))
    }
}

/// The integer read from bytes, most significant first.
pub open spec fn be_value(s: Seq<u8>) -> int
    decreases s.len(),
{
    if s.len() == 0 {
        0
    } else {
        256 * be_value(s.drop_last()) + s.last()
    }
}

/// 256 to the power `n`.
pub open spec fn pow256(n: nat) -> int
    decreases n,
{
    if n == 0 {
        1
    } else {
        256 * pow256((n - 1) as nat)
    }
}

proof fn lemma_pow256_monotone(m: nat, n: nat)
    requires
        m <= n,
    ensures
        1 <= pow256(m) <= pow256(n),
    decreases n,
{
    if n > 0 {
        if m == n {
            lemma_pow256_monotone(0, (n - 1) as nat);
        } else {
            lemma_pow256_monotone(m, (n - 1) as nat);
        }
    }
}

proof fn lemma_be_value_bound(s: Seq<u8>)
    ensures
        0 <= be_value(s) < pow256(s.len()),
    decreases s.len(),
{
    if s.len() > 0 {
        lemma_be_value_bound(s.drop_last());
    }
}

proof fn lemma_be_value_prepend(b: u8, s: Seq<u8>)
    ensures
        be_value(seq![b] + s) == b * pow256(s.len()) + be_value(s),
    decreases s.len(),
{
    if s.len() == 0 {
        assert((seq![b] + s) =~= seq![b]);
        assert(seq![b].drop_last() =~= Seq::<u8>::empty());
        assert(be_value(Seq::<u8>::empty()) == 0);
        assert(seq![b].last() == b);
        assert(be_value(seq![b]) == 256 * 0 + b);
        assert(pow256(0) == 1);
    } else {
        assert((seq![b] + s).drop_last() =~= seq![b] + s.drop_last());
        assert((seq![b] + s).last() == s.last());
        lemma_be_value_prepend(b, s.drop_last());
        assert(pow256(s.len()) == 256 * pow256((s.len() - 1) as nat));
        assert(b * pow256(s.len()) == 256 * (b * pow256((s.len() - 1) as nat)))
            by (nonlinear_arith)
            requires
                pow256(s.len()) == 256 * pow256((s.len() - 1) as nat),
        ;
        assert(be_value(seq![b] + s) == 256 * be_value(seq![b] + s.drop_last()) + s.last());
        assert(be_value(seq![b] + s.drop_last()) == b * pow256(s.drop_last().len()) + be_value(
            s.drop_last(),
        ));
    }
}

/// The core-side command codec: it encodes the addressed aggregate id as
/// its sixteen big-endian bytes and decodes the same.
#[derive(Debug)]
pub struct MyCommandCodec;

impl CommandCodec for MyCommandCodec {
    /// Marshals the command to the sixteen big-endian bytes of its
    /// aggregate id.
    fn marshal_command(&self, command: &MyCommand) -> (r: Result<Vec<u8>, CodecError>)
        ensures
            r is Ok,
            r->Ok_0@.len() == 16,
            be_value(r->Ok_0@) == command.id.value,
    {
        let mut rev: Vec<u8> = Vec::new();
        let mut rest: u128 = command.id.value;
        let mut i: usize = 0;
        proof {
            assert(Seq::<u8>::empty().reverse() =~= Seq::<u8>::empty());
        }
        while i < 16
            invariant
                i <= 16,
                rev@.len() == i,
                command.id.value == rest * pow256(i as nat) + be_value(rev@.reverse()),
                rev@.reverse().len() == i,
            decreases 16 - i,
        {
            let b: u8 = (rest % 256) as u8;
            let ghost rest_pre = rest;
            let ghost rev_pre = rev@;
            rest = rest / 256;
            rev.push(b);
            proof {
                assert(rev@.reverse() =~= seq![b] + rev_pre.reverse());
                lemma_be_value_prepend(b, rev_pre.reverse());
                assert(rest_pre == rest * 256 + b);
                assert(rest_pre * pow256(i as nat) == rest * pow256((i + 1) as nat) + b * pow256(
                    i as nat,
                )) by (nonlinear_arith)
                    requires
                        rest_pre == rest * 256 + b,
                        pow256((i + 1) as nat) == 256 * pow256(i as nat),
                ;
            }
            i = i + 1;
        }
        let mut out: Vec<u8> = Vec::new();
        let mut k: usize = 0;
        while k < 16
            invariant
                k <= 16,
                rev@.len() == 16,
                out@.len() == k,
                forall|j: int| 0 <= j < k ==> out@[j] == rev@[15 - j],
            decreases 16 - k,
        {
            out.push(rev[15 - k]);
            k = k + 1;
        }
        proof {
            assert(out@ =~= rev@.reverse());
            lemma_be_value_bound(rev@.reverse());
            lemma_pow256_monotone(0, 16);
            assert(rest * pow256(16) >= rest * 1) by (nonlinear_arith)
                requires
                    rest >= 0,
                    pow256(16) >= 1,
            ;
            assert(rest == 0) by {
                if rest > 0 {
                    assert(rest * pow256(16) >= pow256(16)) by (nonlinear_arith)
                        requires
                            rest >= 1,
                            pow256(16) >= 1,
                    ;
                    assert(pow256(16) == 0x1_0000_0000_0000_0000_0000_0000_0000_0000int) by {
                        reveal_with_fuel(pow256, 17);
                    }
                }
            }
        }
        Ok(out)
    }

    /// Unmarshals a command from the sixteen big-endian bytes of an
    /// aggregate id; any other length is malformed.
    fn unmarshal_command(&self, data: &Vec<u8>) -> (r: Result<MyCommand, CodecError>)
        ensures
            r is Ok <==> data@.len() == 16,
            r is Ok ==> r->Ok_0.id.value == be_value(data@),
    {
        if data.len() != 16 {
            return Err(CodecError(String::from_str("a command is sixteen bytes")));
        }
        let mut v: u128 = 0;
        let mut i: usize = 0;
        while i < 16
            invariant
                i <= 16,
                data@.len() == 16,
                v == be_value(data@.subrange(0, i as int)),
                v < pow256(i as nat),
            decreases 16 - i,
        {
            proof {
                assert(data@.subrange(0, i as int + 1).drop_last() =~= data@.subrange(
                    0,
                    i as int,
                ));
                assert(data@.subrange(0, i as int + 1).last() == data@[i as int]);
                lemma_pow256_monotone(i as nat + 1, 16);
                assert(pow256(16) == 0x1_0000_0000_0000_0000_0000_0000_0000_0000int) by {
                    reveal_with_fuel(pow256, 17);
                }
            }
            v = v * 256 + (data[i] as u128);
            i = i + 1;
        }
        proof {
            assert(data@.subrange(0, 16) =~= data@);
        }
        Ok(MyCommand { id: crate::uuid::Uuid { value: v } })
    }
}

/// Round trip: decoding an encoded command yields the command itself.
pub proof fn lemma_command_codec_round_trip(command: MyCommand, bytes: Seq<u8>, decoded: MyCommand)
    requires
        bytes.len() == 16,
        be_value(bytes) == command.id.value,
        decoded.id.value == be_value(bytes),
    ensures
        decoded.id == command.id,
{
}

} // verus!
