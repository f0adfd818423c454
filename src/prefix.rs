//! Compressed CIDR prefixes, as carried in the withdrawn-routes and NLRI
//! fields of an UPDATE message.

use crate::error::{Error, ErrorKind};
use bytes::Bytes;
use vstd::prelude::*;

verus! {

/// An address prefix: the number of significant leading bits and the
/// address bytes, with every bit after the significant ones cleared.
#[derive(Debug, PartialEq)]
pub struct IpAddrPrefix {
    pub length: u8,
    pub prefix: Vec<u8>,
}

impl View for IpAddrPrefix {
    type V = (u8, Seq<u8>);

    open spec fn view(&self) -> (u8, Seq<u8>) {
        (self.length, self.prefix@)
    }
}

/// The prefixes of `v` as (bit length, address bytes) pairs.
pub open spec fn prefixes_view(v: Seq<IpAddrPrefix>) -> Seq<(u8, Seq<u8>)> {
    v.map_values(|p: IpAddrPrefix| p@)
}

/// How many address bytes follow a bit length on the wire.
pub open spec fn prefix_byte_len(bits: u8) -> nat {
    ((bits as nat) + 7) / 8
}

/// The mask that keeps the `rem` leading bits of a byte (`0 < rem < 8`).
pub open spec fn leading_mask(rem: u8) -> u8 {
    0xffu8 << ((8 - rem) as u8)
}

/// The address bytes of a prefix of `bits` bits whose wire bytes are `raw`:
/// `raw`, with the bits after the first `bits` cleared, padded with zeros to
/// `addr_len` bytes.
pub open spec fn masked_address(bits: u8, raw: Seq<u8>, addr_len: nat) -> Seq<u8> {
    Seq::new(
        addr_len,
        |j: int|
            if j < raw.len() {
                if j == raw.len() - 1 && bits % 8 != 0 {
                    raw[j] & leading_mask(bits % 8)
                } else {
                    raw[j]
                }
            } else {
                0u8
            },
    )
}

/// Bit `k` of `s`, counting from the most significant bit of `s[0]`.
pub open spec fn bit_at(s: Seq<u8>, k: int) -> bool {
    (s[k / 8] >> ((7 - k % 8) as u8)) & 1 == 1
}

/// `p` is a well-formed prefix of an `addr_len`-byte address family.
pub open spec fn prefix_well_formed(p: (u8, Seq<u8>), addr_len: nat) -> bool {
    &&& p.1.len() == addr_len
    &&& forall|k: int| p.0 <= k < addr_len * 8 ==> !#[trigger] bit_at(p.1, k)
}

/// The entry at the front of `s` can be decoded.
pub open spec fn entry_ok(s: Seq<u8>, addr_len: u8) -> bool {
    &&& s.len() >= 1
    &&& prefix_byte_len(s[0]) <= s.len() - 1
    &&& s[0] as int <= addr_len as int * 8
}

/// The wire length of the entry at the front of `s`.
pub open spec fn entry_len(s: Seq<u8>) -> nat {
    1 + prefix_byte_len(s[0])
}

/// The prefix that the entry at the front of `s` denotes.
pub open spec fn entry_prefix(s: Seq<u8>, addr_len: u8) -> (u8, Seq<u8>) {
    (s[0], masked_address(s[0], s.subrange(1, entry_len(s) as int), addr_len as nat))
}

/// The prefixes that a stream of entries holds, or `None` when the stream
/// is malformed: every byte of `s` belongs to exactly one entry.
pub open spec fn decode_prefixes(s: Seq<u8>, addr_len: u8) -> Option<Seq<(u8, Seq<u8>)>>
    decreases s.len(),
{
    if s.len() == 0 {
        Some(Seq::empty())
    } else if !entry_ok(s, addr_len) {
        None
    } else {
        match decode_prefixes(s.subrange(entry_len(s) as int, s.len() as int), addr_len) {
            Some(rest) => Some(seq![entry_prefix(s, addr_len)] + rest),
            None => None,
        }
    }
}

/// The number of bytes that the wire encoding of prefixes `ps` takes.
pub open spec fn prefixes_wire_len(ps: Seq<(u8, Seq<u8>)>) -> nat
    decreases ps.len(),
{
    if ps.len() == 0 {
        0
    } else {
        1 + prefix_byte_len(ps[0].0) + prefixes_wire_len(ps.drop_first())
    }
}

proof fn lemma_masked_byte_low_bits(b: u8, rem: u8, j: u8)
    requires
        1 <= rem <= 7,
        rem <= j <= 7,
    ensures
        ((b & (0xffu8 << ((8 - rem) as u8))) >> ((7 - j) as u8)) & 1 == 0,
{
    assert(((b & (0xffu8 << ((8 - rem) as u8))) >> ((7 - j) as u8)) & 1 == 0) by (bit_vector)
        requires
            1 <= rem <= 7,
            rem <= j <= 7,
    ;
}

proof fn lemma_zero_byte_bits(j: u8)
    requires
        j <= 7,
    ensures
        (0u8 >> j) & 1 == 0,
{
    assert((0u8 >> j) & 1 == 0) by (bit_vector);
}

/// Every decoded entry is a prefix of exactly `addr_len` bytes in which each
/// bit at a position at or past its bit length is zero.
pub proof fn lemma_entry_host_bits_clear(bits: u8, raw: Seq<u8>, addr_len: nat)
    requires
        raw.len() == prefix_byte_len(bits),
        bits as int <= addr_len * 8,
    ensures
        prefix_well_formed((bits, masked_address(bits, raw, addr_len)), addr_len),
{
    let m = masked_address(bits, raw, addr_len);
    assert forall|k: int| bits <= k < addr_len * 8 implies !#[trigger] bit_at(m, k) by {
        let q = k / 8;
        let j = k % 8;
        assert(0 <= j < 8 && q * 8 + j == k) by (nonlinear_arith)
            requires
                q == k / 8,
                j == k % 8,
                k >= 0,
        ;
        assert(raw.len() * 8 >= bits && raw.len() * 8 < bits + 8) by (nonlinear_arith)
            requires
                raw.len() == (bits as nat + 7) / 8,
        ;
        if q < raw.len() {
            // Only the last wire byte can hold bits past the bit length.
            assert(q == raw.len() - 1);
            assert(bits % 8 != 0 && j >= bits % 8) by (nonlinear_arith)
                requires
                    q == raw.len() - 1,
                    raw.len() * 8 >= bits,
                    raw.len() * 8 < bits + 8,
                    q * 8 + j == k,
                    bits <= k,
                    0 <= j < 8,
            ;
            lemma_masked_byte_low_bits(raw[q], bits % 8, j as u8);
        } else {
            assert(q < addr_len) by (nonlinear_arith)
                requires
                    q * 8 + (k % 8) == k,
                    k < addr_len * 8,
                    0 <= k % 8,
            ;
            lemma_zero_byte_bits((7 - j) as u8);
        }
    }
}

impl IpAddrPrefix {
    /// Decodes a stream of prefix entries of an `addr_len`-byte address
    /// family that fills `data` exactly (the withdrawn routes or the NLRI).
    pub fn decode_stream(data: &[u8], addr_len: u8) -> (r: Result<Vec<IpAddrPrefix>, Error>)
        ensures
            match r {
                Ok(v) => {
                    &&& decode_prefixes(data@, addr_len) == Some(prefixes_view(v@))
                    &&& prefixes_wire_len(prefixes_view(v@)) == data@.len()
                    &&& forall|i: int|
                        0 <= i < v@.len() ==> prefix_well_formed(
                            #[trigger] v@[i]@,
                            addr_len as nat,
                        )
                },
                Err(e) => {
                    &&& decode_prefixes(data@, addr_len) is None
                    &&& e.kind == ErrorKind::InvalidNetworkField
                    &&& e.data is None
                },
            },
    {
        let mut prefixes: Vec<IpAddrPrefix> = Vec::new();
        let mut pos: usize = 0;
        proof {
            assert(data@.subrange(0, data@.len() as int) =~= data@);
            assert(prefixes_view(prefixes@) =~= Seq::<(u8, Seq<u8>)>::empty());
            assert forall|s: Seq<(u8, Seq<u8>)>| prefixes_view(prefixes@) + s == s by {
                assert(prefixes_view(prefixes@) + s =~= s);
            }
        }
        while pos < data.len()
            invariant
                pos <= data@.len(),
                decode_prefixes(data@, addr_len) == match decode_prefixes(
                    data@.subrange(pos as int, data@.len() as int),
                    addr_len,
                ) {
                    Some(rest) => Some(prefixes_view(prefixes@) + rest),
                    None => None,
                },
                prefixes_wire_len(prefixes_view(prefixes@)) == pos,
                forall|i: int|
                    0 <= i < prefixes@.len() ==> prefix_well_formed(
                        #[trigger] prefixes@[i]@,
                        addr_len as nat,
                    ),
            decreases data@.len() - pos,
        {
            let ghost rest = data@.subrange(pos as int, data@.len() as int);
            let bit_len = data[pos];
            pos = pos + 1;
            let byte_len: usize = (bit_len as usize + 7) / 8;
            if data.len() - pos < byte_len || bit_len as u16 > addr_len as u16 * 8 {
                assert(!entry_ok(rest, addr_len));
                return Err(ErrorKind::InvalidNetworkField.with_bytes(Bytes::copy_from_slice(data)));
            }
            let mut address: Vec<u8> = Vec::new();
            let mut j: usize = 0;
            while j < addr_len as usize
                invariant
                    j <= addr_len,
                    data@.len() <= usize::MAX,
                    pos + byte_len <= data@.len(),
                    byte_len == prefix_byte_len(bit_len),
                    byte_len <= addr_len,
                    address@.len() == j,
                    forall|t: int|
                        0 <= t < j ==> #[trigger] address@[t] == masked_address(
                            bit_len,
                            data@.subrange(pos as int, pos + byte_len),
                            addr_len as nat,
                        )[t],
                decreases addr_len - j,
            {
                let b: u8 = if j < byte_len {
                    let rem: u8 = bit_len % 8;
                    if j + 1 == byte_len && rem != 0 {
                        data[pos + j] & (0xff_u8 << (8 - rem))
                    } else {
                        data[pos + j]
                    }
                } else {
                    0
                };
                address.push(b);
                j = j + 1;
            }
            let ghost raw = data@.subrange(pos as int, pos + byte_len);
            assert(address@ =~= masked_address(bit_len, raw, addr_len as nat));
            proof {
                lemma_entry_host_bits_clear(bit_len, raw, addr_len as nat);
                assert(rest.subrange(1, entry_len(rest) as int) =~= raw);
                assert(rest.subrange(entry_len(rest) as int, rest.len() as int)
                    =~= data@.subrange(pos + byte_len, data@.len() as int));
            }
            let ghost old_view = prefixes_view(prefixes@);
            prefixes.push(IpAddrPrefix { length: bit_len, prefix: address });
            pos = pos + byte_len;
            proof {
                let nv = prefixes_view(prefixes@);
                assert(nv =~= old_view.push((bit_len, address@)));
                lemma_wire_len_push(old_view, (bit_len, address@));
                assert forall|s: Seq<(u8, Seq<u8>)>|
                    old_view + (seq![entry_prefix(rest, addr_len)] + s) == nv + s by {
                    assert(old_view + (seq![entry_prefix(rest, addr_len)] + s) =~= nv + s);
                }
            }
        }
        proof {
            assert(data@.subrange(pos as int, data@.len() as int) =~= Seq::<u8>::empty());
            assert(prefixes_view(prefixes@) + Seq::<(u8, Seq<u8>)>::empty() =~= prefixes_view(prefixes@));
        }
        Ok(prefixes)
    }
}

proof fn lemma_wire_len_push(ps: Seq<(u8, Seq<u8>)>, p: (u8, Seq<u8>))
    ensures
        prefixes_wire_len(ps.push(p)) == prefixes_wire_len(ps) + 1 + prefix_byte_len(p.0),
    decreases ps.len(),
{
    assert(ps.push(p).len() > 0);
    if ps.len() == 0 {
        assert(ps.push(p)[0] == p);
        assert(ps.push(p).drop_first() =~= Seq::<(u8, Seq<u8>)>::empty());
        assert(prefixes_wire_len(ps.push(p).drop_first()) == 0);
    } else {
        assert(ps.push(p)[0] == ps[0]);
        assert(ps.push(p).drop_first() =~= ps.drop_first().push(p));
        lemma_wire_len_push(ps.drop_first(), p);
    }
}

} // verus!
