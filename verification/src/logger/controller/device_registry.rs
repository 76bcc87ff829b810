//! Session-stable textual ids for raw input device handles.
use vstd::prelude::*;
use std::collections::HashMap;
use crate::text::{hex_char_upper, hex_fixed, pow16, push_hex_fixed, push_str};

verus! {

/// The handle's bit pattern read as an unsigned pointer-sized number.
pub open spec fn handle_bits(handle: isize) -> int {
    if handle >= 0 {
        handle as int
    } else {
        handle + usize::MAX + 1
    }
}

/// `rawhid_` followed by the handle's bits as sixteen upper-case hex digits.
pub open spec fn spec_device_id(handle: isize) -> Seq<char> {
    "rawhid_"@ + hex_fixed(handle_bits(handle) as nat, 16)
}

/// Remembers the id given to each device handle seen in a session.
#[derive(Debug)]
pub struct DeviceRegistry {
    ids: HashMap<isize, String>,
}

/// The id text of a handle.
pub fn format_device_id(handle: isize) -> (r: String)
    ensures
        r@ == spec_device_id(handle),
{
    let bits: usize = if handle >= 0 {
        handle as usize
    } else {
        usize::MAX - ((-(handle + 1)) as usize)
    };
    let mut s = String::new();
    push_str(&mut s, "rawhid_");
    push_hex_fixed(&mut s, bits as u64, 16);
    s
}

impl DeviceRegistry {
    #[verifier::type_invariant]
    spec fn wf(self) -> bool {
        forall|h: isize| #[trigger] self.ids@.contains_key(h) ==> self.ids@[h]@ == spec_device_id(h)
    }

    /// The handles that have been given an id.
    pub closed spec fn known_handles(&self) -> Set<isize> {
        self.ids@.dom()
    }

    /// A registry that has seen no device.
    pub fn new() -> (r: Self)
        ensures
            r.known_handles() == Set::<isize>::empty(),
    {
        let r = DeviceRegistry { ids: HashMap::new() };
        proof {
            assert(r.ids@.dom() =~= Set::<isize>::empty());
        }
        r
    }

    /// The id of `device_handle`; the same handle always gets the same id.
    pub fn device_id(&mut self, device_handle: isize) -> (r: String)
        ensures
            r@ == spec_device_id(device_handle),
            final(self).known_handles() == old(self).known_handles().insert(device_handle),
    {
        proof {
            use_type_invariant(&*self);
        }
        match self.ids.get(&device_handle) {
            Some(id) => {
                let r = id.clone();
                proof {
                    assert(self.ids@.dom().insert(device_handle) =~= self.ids@.dom());
                }
                r
            },
            None => {
                let id = format_device_id(device_handle);
                let r = id.clone();
                let mut ids: HashMap<isize, String> = HashMap::new();
                std::mem::swap(&mut ids, &mut self.ids);
                ids.insert(device_handle, id);
                self.ids = ids;
                r
            },
        }
    }
}

proof fn lemma_hex_char_injective(a: nat, b: nat)
    requires
        a < 16,
        b < 16,
        hex_char_upper(a) == hex_char_upper(b),
    ensures
        a == b,
{
}

proof fn lemma_hex_fixed_determines(a: nat, b: nat, w: nat)
    requires
        hex_fixed(a, w) == hex_fixed(b, w),
    ensures
        a % pow16(w) == b % pow16(w),
    decreases w,
{
    if w > 0 {
        let pa = hex_fixed(a / 16, (w - 1) as nat);
        let pb = hex_fixed(b / 16, (w - 1) as nat);
        assert(hex_fixed(a, w) == pa.push(hex_char_upper(a % 16)));
        assert(hex_fixed(b, w) == pb.push(hex_char_upper(b % 16)));
        assert(pa == hex_fixed(a, w).drop_last());
        assert(pb == hex_fixed(b, w).drop_last());
        assert(hex_char_upper(a % 16) == hex_fixed(a, w).last());
        lemma_hex_char_injective(a % 16, b % 16);
        lemma_hex_fixed_determines(a / 16, b / 16, (w - 1) as nat);
        let p = pow16((w - 1) as nat);
        assert(p > 0) by {
            lemma_pow16_pos((w - 1) as nat);
        }
        lemma_mod_split(a, p);
        lemma_mod_split(b, p);
    }
}

proof fn lemma_pow16_pos(w: nat)
    ensures
        pow16(w) > 0,
    decreases w,
{
    if w > 0 {
        lemma_pow16_pos((w - 1) as nat);
    }
}

proof fn lemma_mod_split(a: nat, p: nat)
    requires
        p > 0,
    ensures
        a % (16 * p) == ((a / 16) % p) * 16 + a % 16,
{
    assert(a % (16 * p) == ((a / 16) % p) * 16 + a % 16) by (nonlinear_arith)
        requires
            p > 0,
    {
        vstd::arithmetic::div_mod::lemma_breakdown(a as int, 16, p as int);
    }
}

/// Different device handles get different ids.
pub proof fn law_device_ids_are_distinct(h1: isize, h2: isize)
    requires
        h1 != h2,
    ensures
        spec_device_id(h1) != spec_device_id(h2),
{
    if spec_device_id(h1) == spec_device_id(h2) {
        let prefix = "rawhid_"@;
        assert(spec_device_id(h1).skip(prefix.len() as int) =~= hex_fixed(handle_bits(h1) as nat, 16));
        assert(spec_device_id(h2).skip(prefix.len() as int) =~= hex_fixed(handle_bits(h2) as nat, 16));
        lemma_hex_fixed_determines(handle_bits(h1) as nat, handle_bits(h2) as nat, 16);
        reveal_with_fuel(pow16, 17);
        assert(pow16(16) == 0x1_0000_0000_0000_0000nat);
        assert(usize::MAX < 0x1_0000_0000_0000_0000nat);
        assert(0 <= handle_bits(h1) < pow16(16));
        assert(0 <= handle_bits(h2) < pow16(16));
        vstd::arithmetic::div_mod::lemma_small_mod(handle_bits(h1) as nat, pow16(16));
        vstd::arithmetic::div_mod::lemma_small_mod(handle_bits(h2) as nat, pow16(16));
    }
}

} // verus!
