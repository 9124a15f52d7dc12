//! TLS callback extraction: the loader-invoked callback addresses named by
//! the PE TLS directory.
//!
//! The layout depends on the architecture: 32-bit images keep the callback
//! array address as a 32-bit field, 64-bit images as a 64-bit field; 32-bit
//! addresses are widened to 64 bits on output.  The callback array itself
//! holds virtual addresses and ends at a zero entry.  An absent directory,
//! a failed translation or a truncated read is treated as "no callbacks" —
//! recorded as an empty list, never as a failure, since TLS directories are
//! commonly absent or malformed in legitimate binaries.

use vstd::prelude::*;

use crate::decoder::SectionHeaderRaw;
use crate::pe::util::{
    read_u32_at,
    read_u64_at,
    spec_read_u32,
    spec_read_u64,
    spec_translate_rva,
    translate_rva,
};

verus! {

/// How many callback addresses are read at most.
pub const TLS_CALLBACK_CAP: u64 = 1024;

/// The ordered TLS callback addresses; empty on absence or any recoverable
/// failure.
#[derive(Clone, Debug, Default, PartialEq)]
pub struct TlsCallbacks {
    pub callbacks: Vec<u64>,
}

/// One callback-array slot: a 64-bit address, or a 32-bit address widened.
pub open spec fn spec_read_callback_slot(b: Seq<u8>, off: int, is_64: bool) -> Option<u64> {
    if is_64 {
        spec_read_u64(b, off)
    } else {
        match spec_read_u32(b, off) {
            Some(v) => Some(v as u64),
            None => None,
        }
    }
}

/// The width of one callback-array slot.
pub open spec fn spec_slot_size(is_64: bool) -> int {
    if is_64 {
        8
    } else {
        4
    }
}

/// The callback addresses read from `off` on: the list ends at a zero
/// entry, at a truncated read, or after `fuel` entries.
pub open spec fn spec_read_callbacks(b: Seq<u8>, off: int, is_64: bool, fuel: nat) -> Seq<u64>
    decreases fuel,
{
    if fuel == 0 {
        Seq::empty()
    } else {
        match spec_read_callback_slot(b, off, is_64) {
            Some(v) => if v == 0 {
                Seq::empty()
            } else {
                seq![v] + spec_read_callbacks(b, off + spec_slot_size(is_64), is_64, (fuel
                    - 1) as nat)
            },
            None => Seq::empty(),
        }
    }
}

/// The address field of the callback array inside the TLS directory: at
/// offset 24 of the 64-bit layout, at offset 12 of the 32-bit layout.
pub open spec fn spec_callback_array_va(b: Seq<u8>, dir_off: int, is_64: bool) -> Option<u64> {
    if is_64 {
        spec_read_u64(b, dir_off + 24)
    } else {
        match spec_read_u32(b, dir_off + 12) {
            Some(v) => Some(v as u64),
            None => None,
        }
    }
}

/// The TLS callbacks of an image: the TLS directory's callback-array
/// address, rebased and translated to a file offset, read slot by slot.
/// Every failure along the way reads as "no callbacks".
pub open spec fn spec_tls_callbacks(
    b: Seq<u8>,
    hs: Seq<SectionHeaderRaw>,
    dir: Option<(u32, u32)>,
    image_base: u64,
    is_64: bool,
) -> Seq<u64> {
    match dir {
        Some(d) => match spec_translate_rva(hs, d.0 as u64) {
            Some(dir_off) => match spec_callback_array_va(b, dir_off as int, is_64) {
                Some(va) => if va == 0 || va < image_base {
                    Seq::empty()
                } else {
                    match spec_translate_rva(hs, (va - image_base) as u64) {
                        Some(cb_off) => spec_read_callbacks(
                            b,
                            cb_off as int,
                            is_64,
                            TLS_CALLBACK_CAP as nat,
                        ),
                        None => Seq::empty(),
                    }
                },
                None => Seq::empty(),
            },
            None => Seq::empty(),
        },
        None => Seq::empty(),
    }
}

/// Reads one callback-array slot, widening 32-bit addresses.
fn read_callback_slot(buf: &[u8], off: u64, is_64: bool) -> (r: Option<u64>)
    ensures
        r == spec_read_callback_slot(buf@, off as int, is_64),
{
    if is_64 {
        read_u64_at(buf, off)
    } else {
        match read_u32_at(buf, off) {
            Some(v) => Some(v as u64),
            None => None,
        }
    }
}

impl TlsCallbacks {
    /// Extracts the TLS callback addresses of an image; absence and every
    /// recoverable failure yield an empty list, never an error.
    pub fn parse(
        buf: &[u8],
        headers: &Vec<SectionHeaderRaw>,
        dir: Option<(u32, u32)>,
        image_base: u64,
        is_64: bool,
    ) -> (r: TlsCallbacks)
        ensures
            r.callbacks@ == spec_tls_callbacks(buf@, headers@, dir, image_base, is_64),
    {
        let d = match dir {
            Some(d) => d,
            None => {
                return TlsCallbacks { callbacks: Vec::new() };
            },
        };
        let dir_off = match translate_rva(headers, d.0 as u64) {
            Some(o) => o,
            None => {
                return TlsCallbacks { callbacks: Vec::new() };
            },
        };
        proof {
            crate::pe::resource::lemma_translate_bounded(headers@, d.0 as u64);
        }
        let va = match read_callback_slot(buf, if is_64 {
            dir_off + 24
        } else {
            dir_off + 12
        }, is_64) {
            Some(va) => va,
            None => {
                return TlsCallbacks { callbacks: Vec::new() };
            },
        };
        if va == 0 || va < image_base {
            return TlsCallbacks { callbacks: Vec::new() };
        }
        let cb_off = match translate_rva(headers, va - image_base) {
            Some(o) => o,
            None => {
                return TlsCallbacks { callbacks: Vec::new() };
            },
        };
        proof {
            crate::pe::resource::lemma_translate_bounded(headers@, (va - image_base) as u64);
        }
        let step: u64 = if is_64 {
            8
        } else {
            4
        };
        let mut callbacks: Vec<u64> = Vec::new();
        let mut cur: u64 = cb_off;
        let mut fuel: u64 = TLS_CALLBACK_CAP;
        let ghost total = spec_read_callbacks(buf@, cb_off as int, is_64, TLS_CALLBACK_CAP as nat);
        while fuel > 0
            invariant
                cur <= 0x2_0000_0000u64 + 8 * (TLS_CALLBACK_CAP - fuel),
                fuel <= TLS_CALLBACK_CAP,
                step == spec_slot_size(is_64),
                callbacks@ + spec_read_callbacks(buf@, cur as int, is_64, fuel as nat) == total,
                total == spec_tls_callbacks(buf@, headers@, dir, image_base, is_64),
            decreases fuel,
        {
            match read_callback_slot(buf, cur, is_64) {
                Some(v) => {
                    if v == 0 {
                        assert(callbacks@ + Seq::<u64>::empty() =~= callbacks@);
                        return TlsCallbacks { callbacks };
                    }
                    callbacks.push(v);
                    proof {
                        assert(callbacks@ + spec_read_callbacks(
                            buf@,
                            cur + spec_slot_size(is_64),
                            is_64,
                            (fuel - 1) as nat,
                        ) =~= callbacks@.drop_last() + (seq![v] + spec_read_callbacks(
                            buf@,
                            cur + spec_slot_size(is_64),
                            is_64,
                            (fuel - 1) as nat,
                        )));
                    }
                    cur = cur + step;
                    fuel = fuel - 1;
                },
                None => {
                    assert(callbacks@ + Seq::<u64>::empty() =~= callbacks@);
                    return TlsCallbacks { callbacks };
                },
            }
        }
        assert(callbacks@ + Seq::<u64>::empty() =~= callbacks@);
        TlsCallbacks { callbacks }
    }
}

} // verus!
