//! Device models: the capabilities of each pin of a device, and the rules
//! that a model and a requested pin capability must satisfy.
//!
//! Pins are visited in ascending pin number wherever the rules look at
//! several pins, so the pin an error names is the lowest that fails.

pub mod table_generator;

use vstd::prelude::*;
use vstd::string::*;
use std::collections::HashMap;
use crate::error::{PoKeysError, Result};
use crate::matrix::LedMatrixConfig;
use crate::text::{
    dec, ends_with, has_prefix, has_suffix, parse_u32, parse_u32_spec, push_dec, starts_with, str_equal,
    string_of, substring,
};

verus! {

broadcast use vstd::std_specs::hash::group_hash_axioms;

/// Default directory for device model files, below the home directory.
pub const DEFAULT_MODEL_DIR: &'static str = ".config/pokeys/models";

/// Default retry interval for model loading, in seconds.
pub const DEFAULT_RETRY_INTERVAL: u64 = 10;

/// The capabilities of a single pin.
#[derive(Debug, Clone, PartialEq)]
pub struct PinModel {
    /// Capabilities supported by this pin.
    pub capabilities: Vec<String>,
    /// Whether the pin is active.
    pub active: bool,
}

/// The capabilities of all pins of a device.
#[derive(Debug, Clone, PartialEq)]
pub struct DeviceModel {
    /// Device model name.
    pub name: String,
    /// Pin number to pin model.
    pub pins: HashMap<u8, PinModel>,
}

/// The capabilities of a pin model as character sequences.
pub open spec fn cap_seq(p: PinModel) -> Seq<Seq<char>> {
    p.capabilities@.map_values(|s: String| s@)
}

/// Whether pin `pin` of the model lists capability `c`.
pub open spec fn pin_has(m: DeviceModel, pin: u8, c: Seq<char>) -> bool {
    m.pins@.contains_key(pin) && cap_seq(m.pins@[pin]).contains(c)
}

/// Whether pin `pin` of the model lists a capability beginning with `pre`.
pub open spec fn pin_has_prefixed(m: DeviceModel, pin: u8, pre: Seq<char>) -> bool {
    m.pins@.contains_key(pin) && exists|i: int| 0 <= i < cap_seq(m.pins@[pin]).len()
        && has_prefix(#[trigger] cap_seq(m.pins@[pin])[i], pre)
}

/// The lowest pin from `from` on, other than `exclude`, that lists `c`.
pub open spec fn first_pin_with(m: DeviceModel, exclude: u8, c: Seq<char>, from: int) -> Option<u8>
    decreases 256 - from,
{
    if from >= 256 || from < 0 {
        None
    } else if from != exclude && pin_has(m, from as u8, c) {
        Some(from as u8)
    } else {
        first_pin_with(m, exclude, c, from + 1)
    }
}

/// The pin that `first_pin_with` finds lists the capability and is not the
/// excluded one.
pub proof fn lemma_first_pin_with(m: DeviceModel, exclude: u8, c: Seq<char>, from: int)
    ensures
        first_pin_with(m, exclude, c, from) matches Some(p) ==> pin_has(m, p, c) && p != exclude,
    decreases 256 - from,
{
    if 0 <= from < 256 {
        lemma_first_pin_with(m, exclude, c, from + 1);
    }
}

/// The capabilities of a list that begin with `pre`, each paired with `pin`.
pub open spec fn prefixed_pairs(caps: Seq<Seq<char>>, pre: Seq<char>, pin: u8) -> Seq<(Seq<char>, u8)>
    decreases caps.len(),
{
    if caps.len() == 0 {
        Seq::empty()
    } else {
        prefixed_pairs(caps.drop_last(), pre, pin) + (if has_prefix(caps.last(), pre) {
            seq![(caps.last(), pin)]
        } else {
            Seq::empty()
        })
    }
}

/// The capabilities beginning with `pre` of the pins from `from` on, other
/// than `exclude`, with their pins: by ascending pin, then in list order.
pub open spec fn prefixed_caps(m: DeviceModel, exclude: u8, pre: Seq<char>, from: int) -> Seq<(Seq<char>, u8)>
    decreases 256 - from,
{
    if from >= 256 || from < 0 {
        Seq::empty()
    } else {
        (if from != exclude && m.pins@.contains_key(from as u8) {
            prefixed_pairs(cap_seq(m.pins@[from as u8]), pre, from as u8)
        } else {
            Seq::empty()
        }) + prefixed_caps(m, exclude, pre, from + 1)
    }
}

/// The encoder identifier of `Encoder_<id><role>`: the characters between the
/// prefix and the last character.
pub open spec fn encoder_id(cap: Seq<char>) -> Seq<char> {
    cap.subrange(8, cap.len() - 1)
}

/// The partner capability of an encoder capability: role `A` pairs with `B`,
/// any other role with `A`.
pub open spec fn encoder_partner(cap: Seq<char>) -> Seq<char> {
    "Encoder_"@ + encoder_id(cap) + (if cap.last() == 'A' { "B"@ } else { "A"@ })
}

/// The capabilities related to `cap` on pin `pin`: the partner of an encoder
/// capability (at least 10 characters) on the lowest other pin that has it;
/// for a matrix keyboard row, every column capability of the other pins; for
/// a column, every row capability of the other pins.
pub open spec fn related_capabilities(m: DeviceModel, pin: u8, cap: Seq<char>) -> Seq<(Seq<char>, u8)> {
    let enc = if has_prefix(cap, "Encoder_"@) && cap.len() >= 10 {
        match first_pin_with(m, pin, encoder_partner(cap), 0) {
            Some(p) => seq![(encoder_partner(cap), p)],
            None => Seq::empty(),
        }
    } else {
        Seq::empty()
    };
    let rows = if has_prefix(cap, "MatrixKeyboard_Row"@) {
        prefixed_caps(m, pin, "MatrixKeyboard_Col"@, 0)
    } else {
        Seq::empty()
    };
    let cols = if has_prefix(cap, "MatrixKeyboard_Col"@) {
        prefixed_caps(m, pin, "MatrixKeyboard_Row"@, 0)
    } else {
        Seq::empty()
    };
    enc + rows + cols
}

/// Capabilities whose encoder role cannot be cut out of the text: an encoder
/// capability of nine or more characters must end in an ASCII character.
pub open spec fn encoder_cap_well_formed(cap: Seq<char>) -> bool {
    has_prefix(cap, "Encoder_"@) && cap.len() >= 9 ==> (cap.last() as u32) < 128
}

/// Whether some active pin lists a capability beginning with `pre`.
pub open spec fn active_pin_with_prefix(m: DeviceModel, pre: Seq<char>) -> bool {
    exists|k: u8| #[trigger] m.pins@.contains_key(k) && m.pins@[k].active && pin_has_prefixed(m, k, pre)
}

/// What `validate_pin_capability` answers for a pin and a capability.
pub open spec fn pin_capability_outcome(m: DeviceModel, pin: u8, cap: Seq<char>, r: Result<()>) -> bool {
    if !pin_has(m, pin, cap) {
        r matches Err(PoKeysError::UnsupportedPinCapability(p, c)) && p == pin && c@ == cap
    } else if has_prefix(cap, "Encoder_"@) && has_suffix(cap, "A"@) {
        encoder_partner_outcome(m, pin, cap, "Encoder_"@ + encoder_id(cap) + "B"@, r)
    } else if has_prefix(cap, "Encoder_"@) && has_suffix(cap, "B"@) {
        encoder_partner_outcome(m, pin, cap, "Encoder_"@ + encoder_id(cap) + "A"@, r)
    } else if has_prefix(cap, "MatrixKeyboard_Row"@) {
        if active_pin_with_prefix(m, "MatrixKeyboard_Col"@) {
            r is Ok
        } else {
            r matches Err(PoKeysError::MissingRelatedCapability(p, c, d))
                && p == pin && c@ == cap && d@ == "MatrixKeyboard_Col"@
        }
    } else if has_prefix(cap, "MatrixKeyboard_Col"@) {
        if active_pin_with_prefix(m, "MatrixKeyboard_Row"@) {
            r is Ok
        } else {
            r matches Err(PoKeysError::MissingRelatedCapability(p, c, d))
                && p == pin && c@ == cap && d@ == "MatrixKeyboard_Row"@
        }
    } else {
        r is Ok
    }
}

/// The partner rule for an encoder capability: the partner must be found on
/// another pin (the capability being at least 10 characters), and that pin
/// must be active.
pub open spec fn encoder_partner_outcome(m: DeviceModel, pin: u8, cap: Seq<char>, want: Seq<char>, r: Result<()>) -> bool {
    match (if cap.len() >= 10 { first_pin_with(m, pin, want, 0) } else { None }) {
        Some(p) => if m.pins@[p].active {
            r is Ok
        } else {
            r matches Err(PoKeysError::RelatedPinInactive(q, c)) && q == p && c@ == want
        },
        None => r matches Err(PoKeysError::MissingRelatedCapability(q, c, d))
            && q == pin && c@ == cap && d@ == want,
    }
}

/// `Pin <pin> does not support DigitalOutput capability required for LED matrix <id>`.
pub open spec fn led_pin_text(pin: u8, id: u8) -> Seq<char> {
    "Pin "@ + dec(pin as nat) + " does not support DigitalOutput capability required for LED matrix "@
        + dec(id as nat)
}

/// `Cannot reserve pin <pin> for LED matrix <id>: pin does not support DigitalOutput`.
pub open spec fn reserve_pin_text(pin: u8, id: u8) -> Seq<char> {
    "Cannot reserve pin "@ + dec(pin as nat) + " for LED matrix "@ + dec(id as nat)
        + ": pin does not support DigitalOutput"@
}

/// The data, latch and clock pins of LED matrix 1 or 2.
pub open spec fn led_matrix_pins(id: u8) -> Seq<u8> {
    if id == 1 { seq![9u8, 10, 11] } else { seq![23u8, 24, 25] }
}

/// The first pin of a list that does not support digital output.
pub open spec fn first_non_output_pin(m: DeviceModel, pins: Seq<u8>) -> Option<u8>
    decreases pins.len(),
{
    if pins.len() == 0 {
        None
    } else if !pin_has(m, pins[0], "DigitalOutput"@) {
        Some(pins[0])
    } else {
        first_non_output_pin(m, pins.drop_first())
    }
}

fn matrix_pins(id: u8) -> (r: [u8; 3])
    requires
        id == 1 || id == 2,
    ensures
        r@ == led_matrix_pins(id),
{
    let r: [u8; 3] = if id == 1 { [9u8, 10, 11] } else { [23u8, 24, 25] };
    assert(r@ =~= led_matrix_pins(id));
    r
}

fn invalid_matrix_id(id: u8, must: bool) -> (r: PoKeysError)
    ensures
        r matches PoKeysError::ModelValidationError(m) && m@ == (if must {
            "Invalid matrix ID: "@ + dec(id as nat) + ". Must be 1 or 2"@
        } else {
            "Invalid matrix ID: "@ + dec(id as nat)
        }),
{
    let mut s = string_of("Invalid matrix ID: ");
    push_dec(&mut s, id as u64);
    if must {
        s.append(". Must be 1 or 2");
    }
    PoKeysError::ModelValidationError(s)
}

impl DeviceModel {
    /// Whether pin `pin_num` lists `capability`.
    pub fn is_pin_capability_supported(&self, pin_num: u8, capability: &str) -> (r: bool)
        ensures
            r == pin_has(*self, pin_num, capability@),
    {
        match self.pins.get(&pin_num) {
            None => false,
            Some(pin) => {
                let n = pin.capabilities.len();
                let mut i: usize = 0;
                while i < n
                    invariant
                        n == pin.capabilities@.len(),
                        *pin == self.pins@[pin_num],
                        self.pins@.contains_key(pin_num),
                        i <= n,
                        forall|k: int| 0 <= k < i ==> cap_seq(*pin)[k] != capability@,
                    decreases n - i,
                {
                    if str_equal(pin.capabilities[i].as_str(), capability) {
                        assert(cap_seq(*pin)[i as int] == capability@);
                        return true;
                    }
                    i = i + 1;
                }
                false
            },
        }
    }

    /// The capabilities of pin `pin_num`, empty for an unknown pin.
    pub fn get_pin_capabilities(&self, pin_num: u8) -> (r: Vec<String>)
        ensures
            r@.map_values(|s: String| s@) == (if self.pins@.contains_key(pin_num) {
                cap_seq(self.pins@[pin_num])
            } else {
                Seq::empty()
            }),
    {
        let mut out: Vec<String> = Vec::new();
        match self.pins.get(&pin_num) {
            None => {
                assert(out@.map_values(|s: String| s@) =~= Seq::<Seq<char>>::empty());
            },
            Some(pin) => {
                let n = pin.capabilities.len();
                let mut i: usize = 0;
                while i < n
                    invariant
                        n == pin.capabilities@.len(),
                        *pin == self.pins@[pin_num],
                        i <= n,
                        out@.map_values(|s: String| s@) == cap_seq(*pin).take(i as int),
                    decreases n - i,
                {
                    let c = pin.capabilities[i].clone();
                    let ghost prev = out@;
                    out.push(c);
                    assert(out@ =~= prev.push(pin.capabilities@[i as int]));
                    assert(out@.map_values(|s: String| s@) =~= prev.map_values(|s: String| s@).push(
                        pin.capabilities@[i as int]@));
                    assert(out@.map_values(|s: String| s@) =~= cap_seq(*pin).take(i + 1));
                    i = i + 1;
                }
                assert(cap_seq(*pin).take(n as int) =~= cap_seq(*pin));
            },
        }
        out
    }

    /// The lowest pin other than `exclude` that lists `c`.
    fn find_pin_with(&self, exclude: u8, c: &str) -> (r: Option<u8>)
        ensures
            r == first_pin_with(*self, exclude, c@, 0),
    {
        let mut k: u16 = 256;
        let mut found: Option<u8> = None;
        while k > 0
            invariant
                k <= 256,
                found == first_pin_with(*self, exclude, c@, k as int),
            decreases k,
        {
            k = k - 1;
            let key = k as u8;
            if key != exclude && self.is_pin_capability_supported(key, c) {
                found = Some(key);
            }
        }
        found
    }

    /// The capabilities beginning with `pre` of all pins but `exclude`, by
    /// ascending pin.
    fn collect_prefixed(&self, exclude: u8, pre: &str, out: &mut Vec<(String, u8)>)
        ensures
            final(out)@.map_values(|e: (String, u8)| (e.0@, e.1)) == old(out)@.map_values(|e: (String, u8)| (e.0@, e.1))
                + prefixed_caps(*self, exclude, pre@, 0),
    {
        let ghost start = out@.map_values(|e: (String, u8)| (e.0@, e.1));
        let mut k: u16 = 0;
        while k < 256
            invariant
                k <= 256,
                out@.map_values(|e: (String, u8)| (e.0@, e.1)) + prefixed_caps(*self, exclude, pre@, k as int)
                    == start + prefixed_caps(*self, exclude, pre@, 0),
            decreases 256 - k,
        {
            let key = k as u8;
            let ghost before = out@.map_values(|e: (String, u8)| (e.0@, e.1));
            if key != exclude {
                match self.pins.get(&key) {
                    None => {},
                    Some(pin) => {
                        let n = pin.capabilities.len();
                        let mut i: usize = 0;
                        while i < n
                            invariant
                                n == pin.capabilities@.len(),
                                *pin == self.pins@[key],
                                i <= n,
                                out@.map_values(|e: (String, u8)| (e.0@, e.1))
                                    == before + prefixed_pairs(cap_seq(*pin).take(i as int), pre@, key),
                            decreases n - i,
                        {
                            proof {
                                assert(cap_seq(*pin).take(i + 1).drop_last() =~= cap_seq(*pin).take(i as int));
                            }
                            let ghost prev = out@;
                            if starts_with(pin.capabilities[i].as_str(), pre) {
                                let c = pin.capabilities[i].clone();
                                out.push((c, key));
                                assert(out@ =~= prev.push((pin.capabilities@[i as int], key)));
                                assert(out@.map_values(|e: (String, u8)| (e.0@, e.1)) =~= prev.map_values(
                                    |e: (String, u8)| (e.0@, e.1)).push((pin.capabilities@[i as int]@, key)));
                            }
                            assert(out@.map_values(|e: (String, u8)| (e.0@, e.1))
                                =~= before + prefixed_pairs(cap_seq(*pin).take(i + 1), pre@, key));
                            i = i + 1;
                        }
                        assert(cap_seq(*pin).take(n as int) =~= cap_seq(*pin));
                    },
                }
            }
            proof {
                let after = out@.map_values(|e: (String, u8)| (e.0@, e.1));
                assert(prefixed_caps(*self, exclude, pre@, k as int) == (if k != exclude
                    && self.pins@.contains_key(key) {
                    prefixed_pairs(cap_seq(self.pins@[key]), pre@, key)
                } else {
                    Seq::empty()
                }) + prefixed_caps(*self, exclude, pre@, k + 1));
                if !(k != exclude && self.pins@.contains_key(key)) {
                    assert(after =~= before);
                }
                assert(after + prefixed_caps(*self, exclude, pre@, k + 1)
                    =~= before + prefixed_caps(*self, exclude, pre@, k as int));
            }
            k = k + 1;
        }
        assert(out@.map_values(|e: (String, u8)| (e.0@, e.1)) =~= out@.map_values(|e: (String, u8)| (e.0@, e.1))
            + prefixed_caps(*self, exclude, pre@, 256));
    }

    /// The capabilities related to `capability` on `pin_num`: the encoder
    /// partner on the lowest other pin, or for matrix keyboard rows (columns)
    /// every column (row) capability of the other pins, by ascending pin.
    pub fn get_related_capabilities(&self, pin_num: u8, capability: &str) -> (r: Vec<(String, u8)>)
        requires
            encoder_cap_well_formed(capability@),
        ensures
            r@.map_values(|e: (String, u8)| (e.0@, e.1)) == related_capabilities(*self, pin_num, capability@),
    {
        let mut related: Vec<(String, u8)> = Vec::new();
        let len = capability.unicode_len();
        proof {
            reveal_strlit("Encoder_");
            reveal_strlit("A");
            reveal_strlit("B");
        }
        if starts_with(capability, "Encoder_") && len >= 10 {
            let last = capability.get_char(len - 1);
            let mut want = string_of("Encoder_");
            let id = substring(capability, 8, len - 1);
            want.append(id.as_str());
            if last == 'A' {
                want.append("B");
            } else {
                want.append("A");
            }
            assert(want@ == encoder_partner(capability@));
            match self.find_pin_with(pin_num, want.as_str()) {
                Some(p) => {
                    related.push((want, p));
                },
                None => {},
            }
        }
        let ghost enc = related@.map_values(|e: (String, u8)| (e.0@, e.1));
        assert(enc =~= (if has_prefix(capability@, "Encoder_"@) && capability@.len() >= 10 {
            match first_pin_with(*self, pin_num, encoder_partner(capability@), 0) {
                Some(p) => seq![(encoder_partner(capability@), p)],
                None => Seq::empty(),
            }
        } else {
            Seq::empty()
        }));
        let is_row = starts_with(capability, "MatrixKeyboard_Row");
        if is_row {
            self.collect_prefixed(pin_num, "MatrixKeyboard_Col", &mut related);
        }
        let ghost mid = related@.map_values(|e: (String, u8)| (e.0@, e.1));
        let is_col = starts_with(capability, "MatrixKeyboard_Col");
        if is_col {
            self.collect_prefixed(pin_num, "MatrixKeyboard_Row", &mut related);
        }
        proof {
            let rows_part = if has_prefix(capability@, "MatrixKeyboard_Row"@) {
                prefixed_caps(*self, pin_num, "MatrixKeyboard_Col"@, 0)
            } else {
                Seq::empty()
            };
            let cols_part = if has_prefix(capability@, "MatrixKeyboard_Col"@) {
                prefixed_caps(*self, pin_num, "MatrixKeyboard_Row"@, 0)
            } else {
                Seq::empty()
            };
            assert(mid =~= enc + rows_part);
            assert(related@.map_values(|e: (String, u8)| (e.0@, e.1)) =~= enc + rows_part + cols_part);
        }
        related
    }

    /// Whether some active pin lists a capability beginning with `pre`.
    fn any_active_with_prefix(&self, pre: &str) -> (r: bool)
        ensures
            r == active_pin_with_prefix(*self, pre@),
    {
        let mut k: u16 = 0;
        while k < 256
            invariant
                k <= 256,
                forall|j: u8| j < k ==> !(#[trigger] self.pins@.contains_key(j) && self.pins@[j].active
                    && pin_has_prefixed(*self, j, pre@)),
            decreases 256 - k,
        {
            let key = k as u8;
            match self.pins.get(&key) {
                None => {},
                Some(pin) => {
                    if pin.active {
                        let n = pin.capabilities.len();
                        let mut i: usize = 0;
                        while i < n
                            invariant
                                n == pin.capabilities@.len(),
                                *pin == self.pins@[key],
                                self.pins@.contains_key(key),
                                pin.active,
                                i <= n,
                                forall|t: int| 0 <= t < i ==> !has_prefix(#[trigger] cap_seq(*pin)[t], pre@),
                            decreases n - i,
                        {
                            if starts_with(pin.capabilities[i].as_str(), pre) {
                                assert(has_prefix(cap_seq(*pin)[i as int], pre@));
                                assert(pin_has_prefixed(*self, key, pre@));
                                return true;
                            }
                            i = i + 1;
                        }
                    }
                },
            }
            k = k + 1;
        }
        proof {
            assert forall|j: u8| !(#[trigger] self.pins@.contains_key(j) && self.pins@[j].active
                && pin_has_prefixed(*self, j, pre@)) by {
                assert(j < k);
            }
        }
        false
    }

    /// Check that `pin_num` can take `capability`: the pin must list it; an
    /// encoder capability needs its partner on another, active pin; a matrix
    /// keyboard row needs an active pin with a column, and a column one with
    /// a row.
    pub fn validate_pin_capability(&self, pin_num: u8, capability: &str) -> (r: Result<()>)
        requires
            pin_has(*self, pin_num, capability@) ==> encoder_cap_well_formed(capability@),
        ensures
            pin_capability_outcome(*self, pin_num, capability@, r),
    {
        proof {
            reveal_strlit("Encoder_");
            reveal_strlit("A");
            reveal_strlit("B");
            reveal_strlit("MatrixKeyboard_Row");
            reveal_strlit("MatrixKeyboard_Col");
        }
        if !self.is_pin_capability_supported(pin_num, capability) {
            return Err(PoKeysError::UnsupportedPinCapability(pin_num, string_of(capability)));
        }
        let related = self.get_related_capabilities(pin_num, capability);
        let is_enc = starts_with(capability, "Encoder_");
        let ends_a = ends_with(capability, "A");
        let ends_b = ends_with(capability, "B");
        if is_enc && (ends_a || ends_b) {
            let len = capability.unicode_len();
            proof {
                if len == 8 {
                    assert(capability@ =~= capability@.take(8));
                    assert(capability@[7] == '_');
                    assert(capability@.skip(7)[0] == capability@[7]);
                }
                assert(capability@[0] == capability@.take(8)[0]);
            }
            let mut want = string_of("Encoder_");
            let id = substring(capability, 8, len - 1);
            want.append(id.as_str());
            if ends_a {
                want.append("B");
            } else {
                want.append("A");
            }
            proof {
                if ends_a {
                    assert(capability@.last() == 'A') by {
                        assert(capability@.skip(len - 1)[0] == capability@.last());
                    }
                } else {
                    assert(capability@.last() == 'B') by {
                        assert(capability@.skip(len - 1)[0] == capability@.last());
                    }
                }
                if len >= 10 {
                    assert(want@ =~= encoder_partner(capability@));
                }
            }
            let mut found: Option<u8> = None;
            let n = related.len();
            let mut i: usize = 0;
            while i < n
                invariant_except_break
                    found is None,
                invariant
                    n == related@.len(),
                    i <= n,
                    related@.map_values(|e: (String, u8)| (e.0@, e.1)) == related_capabilities(*self, pin_num, capability@),
                    forall|t: int| 0 <= t < i ==> related@[t].0@ != want@,
                ensures
                    found matches Some(p) ==> exists|t: int| 0 <= t < n && related@[t].0@ == want@ && related@[t].1 == p
                        && forall|u: int| 0 <= u < t ==> related@[u].0@ != want@,
                    found is None ==> forall|t: int| 0 <= t < n ==> related@[t].0@ != want@,
                decreases n - i,
            {
                if str_equal(related[i].0.as_str(), want.as_str()) {
                    found = Some(related[i].1);
                    break;
                }
                i = i + 1;
            }
            proof {
                let rel = related_capabilities(*self, pin_num, capability@);
                assert(!has_prefix(capability@, "MatrixKeyboard_Row"@)) by {
                    assert(capability@[0] == 'E');
                    if has_prefix(capability@, "MatrixKeyboard_Row"@) {
                        assert(capability@.take(18)[0] == 'M');
                    }
                }
                assert(!has_prefix(capability@, "MatrixKeyboard_Col"@)) by {
                    assert(capability@[0] == 'E');
                    if has_prefix(capability@, "MatrixKeyboard_Col"@) {
                        assert(capability@.take(18)[0] == 'M');
                    }
                }
                assert(capability@[0] == capability@.take(8)[0]);
            }
            proof {
                let rel = related_capabilities(*self, pin_num, capability@);
                let enc = if has_prefix(capability@, "Encoder_"@) && capability@.len() >= 10 {
                    match first_pin_with(*self, pin_num, encoder_partner(capability@), 0) {
                        Some(q) => seq![(encoder_partner(capability@), q)],
                        None => Seq::empty(),
                    }
                } else {
                    Seq::empty()
                };
                assert(rel =~= enc);
                if found is Some {
                    let t = choose|t: int| 0 <= t < n && related@[t].0@ == want@ && related@[t].1 == found->0
                        && forall|u: int| 0 <= u < t ==> related@[u].0@ != want@;
                    assert(rel[t] == (related@[t].0@, related@[t].1));
                    assert(len >= 10);
                    assert(want@ == encoder_partner(capability@));
                    assert(first_pin_with(*self, pin_num, want@, 0) == Some(found->0));
                    lemma_first_pin_with(*self, pin_num, want@, 0);
                } else {
                    if len >= 10 {
                        if first_pin_with(*self, pin_num, want@, 0) is Some {
                            assert(rel[0] == (related@[0].0@, related@[0].1));
                        }
                    }
                }
            }
            match found {
                Some(p) => {
                    let active = match self.pins.get(&p) {
                        Some(pm) => pm.active,
                        None => true,
                    };
                    if !active {
                        return Err(PoKeysError::RelatedPinInactive(p, want));
                    }
                },
                None => {
                    return Err(PoKeysError::MissingRelatedCapability(pin_num, string_of(capability), want));
                },
            }
            return Ok(());
        }
        if starts_with(capability, "MatrixKeyboard_Row") {
            if !self.any_active_with_prefix("MatrixKeyboard_Col") {
                return Err(PoKeysError::MissingRelatedCapability(pin_num, string_of(capability),
                    string_of("MatrixKeyboard_Col")));
            }
            return Ok(());
        }
        if starts_with(capability, "MatrixKeyboard_Col") {
            if !self.any_active_with_prefix("MatrixKeyboard_Row") {
                return Err(PoKeysError::MissingRelatedCapability(pin_num, string_of(capability),
                    string_of("MatrixKeyboard_Row")));
            }
            return Ok(());
        }
        Ok(())
    }

    /// Check that LED matrix 1 or 2 can use its data, latch and clock pins:
    /// each must support digital output.
    pub fn validate_led_matrix_config(&self, config: &LedMatrixConfig) -> (r: Result<()>)
        ensures
            !(config.matrix_id == 1 || config.matrix_id == 2) ==> (r matches Err(PoKeysError::ModelValidationError(m))
                && m@ == "Invalid matrix ID: "@ + dec(config.matrix_id as nat) + ". Must be 1 or 2"@),
            (config.matrix_id == 1 || config.matrix_id == 2) ==> match first_non_output_pin(*self,
                led_matrix_pins(config.matrix_id)) {
                Some(p) => r matches Err(PoKeysError::ModelValidationError(m)) && m@ == led_pin_text(p, config.matrix_id),
                None => r is Ok,
            },
    {
        let id = config.matrix_id;
        if id < 1 || id > 2 {
            return Err(invalid_matrix_id(id, true));
        }
        let pins = matrix_pins(id);
        match self.first_non_output(&pins) {
            Some(p) => {
                let mut s = string_of("Pin ");
                push_dec(&mut s, p as u64);
                s.append(" does not support DigitalOutput capability required for LED matrix ");
                push_dec(&mut s, id as u64);
                Err(PoKeysError::ModelValidationError(s))
            },
            None => Ok(()),
        }
    }

    fn first_non_output(&self, pins: &[u8; 3]) -> (r: Option<u8>)
        ensures
            r == first_non_output_pin(*self, pins@),
    {
        proof {
            reveal_strlit("DigitalOutput");
        }
        let mut i: usize = 0;
        assert(pins@.skip(0) =~= pins@);
        while i < 3
            invariant
                i <= 3,
                first_non_output_pin(*self, pins@) == first_non_output_pin(*self, pins@.skip(i as int)),
            decreases 3 - i,
        {
            proof {
                assert(pins@.skip(i as int).drop_first() =~= pins@.skip(i + 1));
            }
            if !self.is_pin_capability_supported(pins[i], "DigitalOutput") {
                return Some(pins[i]);
            }
            i = i + 1;
        }
        assert(pins@.skip(3) =~= Seq::<u8>::empty());
        None
    }

    /// Check that the pins of LED matrix 1 or 2 can be reserved: each must
    /// support digital output. The model is left unchanged.
    pub fn reserve_led_matrix_pins(&mut self, matrix_id: u8) -> (r: Result<()>)
        ensures
            *final(self) == *old(self),
            !(matrix_id == 1 || matrix_id == 2) ==> (r matches Err(PoKeysError::ModelValidationError(m))
                && m@ == "Invalid matrix ID: "@ + dec(matrix_id as nat)),
            (matrix_id == 1 || matrix_id == 2) ==> match first_non_output_pin(*old(self), led_matrix_pins(matrix_id)) {
                Some(p) => r matches Err(PoKeysError::ModelValidationError(m)) && m@ == reserve_pin_text(p, matrix_id),
                None => r is Ok,
            },
    {
        if matrix_id < 1 || matrix_id > 2 {
            return Err(invalid_matrix_id(matrix_id, false));
        }
        let pins = matrix_pins(matrix_id);
        match self.first_non_output(&pins) {
            Some(p) => {
                let mut s = string_of("Cannot reserve pin ");
                push_dec(&mut s, p as u64);
                s.append(" for LED matrix ");
                push_dec(&mut s, matrix_id as u64);
                s.append(": pin does not support DigitalOutput");
                Err(PoKeysError::ModelValidationError(s))
            },
            None => Ok(()),
        }
    }
}


/// The lowest pin from `from` on that lists no capability.
pub open spec fn first_empty_pin(m: DeviceModel, from: int) -> Option<u8>
    decreases 256 - from,
{
    if from >= 256 || from < 0 {
        None
    } else if m.pins@.contains_key(from as u8) && m.pins@[from as u8].capabilities@.len() == 0 {
        Some(from as u8)
    } else {
        first_empty_pin(m, from + 1)
    }
}

/// An encoder A capability: `Encoder_<id>A`.
pub open spec fn is_encoder_a(c: Seq<char>) -> bool {
    has_prefix(c, "Encoder_"@) && has_suffix(c, "A"@)
}

/// The B capability named for an encoder A capability.
pub open spec fn b_partner(c: Seq<char>) -> Seq<char> {
    "Encoder_"@ + encoder_id(c) + "B"@
}

/// Pin `k` is the highest pin that lists `c`.
pub open spec fn highest_with(m: DeviceModel, k: u8, c: Seq<char>) -> bool {
    pin_has(m, k, c) && forall|j: u8| j > k ==> !#[trigger] pin_has(m, j, c)
}

/// Encoder A capability `c`, whose A pin is the highest pin listing it, `k`,
/// has no B partner on another pin.
pub open spec fn encoder_unpaired(m: DeviceModel, k: u8, c: Seq<char>) -> bool {
    &&& is_encoder_a(c)
    &&& highest_with(m, k, c)
    &&& forall|j: u8| j != k ==> !#[trigger] pin_has(m, j, b_partner(c))
}

/// `Encoder <id>A on pin <k> has no corresponding Encoder_<id>BB pin`.
pub open spec fn unpaired_text(c: Seq<char>, k: u8) -> Seq<char> {
    "Encoder "@ + encoder_id(c) + "A on pin "@ + dec(k as nat) + " has no corresponding "@ + b_partner(c) + "B pin"@
}

/// The PWM channel entries of a list of capabilities: `PWM_<n>` with `n` a
/// `u32`, paired with the pin.
pub open spec fn pwm_pairs(caps: Seq<Seq<char>>, pin: u8) -> Seq<(u32, u8)>
    decreases caps.len(),
{
    if caps.len() == 0 {
        Seq::empty()
    } else {
        let c = caps.last();
        pwm_pairs(caps.drop_last(), pin) + (if has_prefix(c, "PWM_"@) && parse_u32_spec(c.skip(4)) is Some {
            seq![(parse_u32_spec(c.skip(4))->0, pin)]
        } else {
            Seq::empty()
        })
    }
}

/// The PWM channel entries of the pins from `from` on, by ascending pin.
pub open spec fn pwm_entries(m: DeviceModel, from: int) -> Seq<(u32, u8)>
    decreases 256 - from,
{
    if from >= 256 || from < 0 {
        Seq::empty()
    } else {
        (if m.pins@.contains_key(from as u8) {
            pwm_pairs(cap_seq(m.pins@[from as u8]), from as u8)
        } else {
            Seq::empty()
        }) + pwm_entries(m, from + 1)
    }
}

/// Insert an entry after every entry whose channel is not greater.
pub open spec fn insert_by_channel(s: Seq<(u32, u8)>, e: (u32, u8)) -> Seq<(u32, u8)>
    decreases s.len(),
{
    if s.len() == 0 {
        seq![e]
    } else if s.last().0 <= e.0 {
        s.push(e)
    } else {
        insert_by_channel(s.drop_last(), e).push(s.last())
    }
}

/// The entries sorted by channel, keeping the order of equal channels.
pub open spec fn stable_sort_by_channel(s: Seq<(u32, u8)>) -> Seq<(u32, u8)>
    decreases s.len(),
{
    if s.len() == 0 {
        s
    } else {
        insert_by_channel(stable_sort_by_channel(s.drop_last()), s.last())
    }
}

/// The first position from `i` on whose channel is not its position plus one.
pub open spec fn first_gap(s: Seq<(u32, u8)>, i: int) -> Option<int>
    decreases s.len() - i,
{
    if i >= s.len() || i < 0 {
        None
    } else if s[i].0 != i + 1 {
        Some(i)
    } else {
        first_gap(s, i + 1)
    }
}

/// `PWM channels are not sequential: expected channel <e>, found channel <c> on pin <p>`.
pub open spec fn pwm_gap_text(expected: nat, channel: u32, pin: u8) -> Seq<char> {
    "PWM channels are not sequential: expected channel "@ + dec(expected) + ", found channel "@
        + dec(channel as nat) + " on pin "@ + dec(pin as nat)
}

proof fn lemma_insert_by_channel(s: Seq<(u32, u8)>, e: (u32, u8), pos: int)
    requires
        0 <= pos <= s.len(),
        forall|k: int| pos <= k < s.len() ==> s[k].0 > e.0,
        pos > 0 ==> s[pos - 1].0 <= e.0,
    ensures
        insert_by_channel(s, e) == s.insert(pos, e),
    decreases s.len(),
{
    if s.len() == 0 {
        assert(s.insert(pos, e) =~= seq![e]);
    } else if s.len() == pos {
        assert(s.insert(pos, e) =~= s.push(e));
    } else {
        lemma_insert_by_channel(s.drop_last(), e, pos);
        assert(s.drop_last().insert(pos, e).push(s.last()) =~= s.insert(pos, e));
    }
}

/// What `validate` answers for a model.
pub open spec fn model_validation_outcome(m: DeviceModel, r: Result<()>) -> bool {
    if m.name@.len() == 0 {
        r matches Err(PoKeysError::ModelValidationError(t)) && t@ == "Model name cannot be empty"@
    } else if m.pins@.is_empty() {
        r matches Err(PoKeysError::ModelValidationError(t)) && t@ == "Model must define at least one pin"@
    } else if first_empty_pin(m, 0) is Some {
        r matches Err(PoKeysError::ModelValidationError(t))
            && t@ == "Pin "@ + dec(first_empty_pin(m, 0)->0 as nat) + " must have at least one capability"@
    } else if exists|k: u8, c: Seq<char>| encoder_unpaired(m, k, c) {
        r matches Err(PoKeysError::ModelValidationError(t))
            && exists|k: u8, c: Seq<char>| encoder_unpaired(m, k, c) && t@ == unpaired_text(c, k)
    } else if (exists|k: u8| pin_has_prefixed(m, k, "MatrixKeyboard_Row"@))
        && !(exists|k: u8| pin_has_prefixed(m, k, "MatrixKeyboard_Col"@)) {
        r matches Err(PoKeysError::ModelValidationError(t)) && t@ == "Matrix keyboard has rows but no columns"@
    } else if !(exists|k: u8| pin_has_prefixed(m, k, "MatrixKeyboard_Row"@))
        && (exists|k: u8| pin_has_prefixed(m, k, "MatrixKeyboard_Col"@)) {
        r matches Err(PoKeysError::ModelValidationError(t)) && t@ == "Matrix keyboard has columns but no rows"@
    } else {
        let sorted = stable_sort_by_channel(pwm_entries(m, 0));
        match first_gap(sorted, 0) {
            Some(j) => r matches Err(PoKeysError::ModelValidationError(t))
                && t@ == pwm_gap_text((j + 1) as nat, sorted[j].0, sorted[j].1),
            None => r is Ok,
        }
    }
}


impl DeviceModel {
    fn first_empty(&self) -> (r: Option<u8>)
        ensures
            r == first_empty_pin(*self, 0),
    {
        let mut k: u16 = 256;
        let mut found: Option<u8> = None;
        while k > 0
            invariant
                k <= 256,
                found == first_empty_pin(*self, k as int),
            decreases k,
        {
            k = k - 1;
            let key = k as u8;
            match self.pins.get(&key) {
                Some(pin) => {
                    if pin.capabilities.len() == 0 {
                        found = Some(key);
                    }
                },
                None => {},
            }
        }
        found
    }

    fn is_highest_with(&self, k: u8, c: &str) -> (r: bool)
        ensures
            r == forall|j: u8| j > k ==> !#[trigger] pin_has(*self, j, c@),
    {
        let mut j: u16 = k as u16 + 1;
        while j < 256
            invariant
                k < j <= 256,
                forall|q: u8| k < q < j ==> !#[trigger] pin_has(*self, q, c@),
            decreases 256 - j,
        {
            if self.is_pin_capability_supported(j as u8, c) {
                return false;
            }
            j = j + 1;
        }
        true
    }

    /// An encoder A capability whose highest pin has no B partner elsewhere.
    fn find_unpaired(&self) -> (r: Option<(String, u8)>)
        ensures
            r matches Some(e) ==> encoder_unpaired(*self, e.1, e.0@),
            r is None ==> forall|k: u8, c: Seq<char>| !#[trigger] encoder_unpaired(*self, k, c),
    {
        proof {
            reveal_strlit("Encoder_");
            reveal_strlit("A");
            reveal_strlit("B");
        }
        let mut k: u16 = 0;
        while k < 256
            invariant
                k <= 256,
                forall|j: u8, c: Seq<char>| j < k ==> !#[trigger] encoder_unpaired(*self, j, c),
            decreases 256 - k,
        {
            let key = k as u8;
            match self.pins.get(&key) {
                None => {},
                Some(pin) => {
                    let n = pin.capabilities.len();
                    let mut i: usize = 0;
                    while i < n
                        invariant
                            n == pin.capabilities@.len(),
                            *pin == self.pins@[key],
                            self.pins@.contains_key(key),
                            key == k,
                            k < 256,
                            i <= n,
                            forall|j: u8, c: Seq<char>| j < k ==> !#[trigger] encoder_unpaired(*self, j, c),
                            forall|t: int| 0 <= t < i ==> !encoder_unpaired(*self, key, #[trigger] cap_seq(*pin)[t]),
                        decreases n - i,
                    {
                        let cap = pin.capabilities[i].as_str();
                        assert(cap@ == cap_seq(*pin)[i as int]);
                        proof {
                            reveal_strlit("Encoder_");
                            reveal_strlit("A");
                            reveal_strlit("B");
                        }
                        if starts_with(cap, "Encoder_") && ends_with(cap, "A") {
                            let len = cap.unicode_len();
                            proof {
                                assert(cap@.take(8)[7] == '_');
                                if len == 8 {
                                    assert(cap@ =~= cap@.take(8));
                                    assert(cap@[7] == '_');
                                    assert(cap@.skip(7)[0] == cap@[7]);
                                }
                            }
                            let mut want = string_of("Encoder_");
                            let id = substring(cap, 8, len - 1);
                            want.append(id.as_str());
                            want.append("B");
                            assert(want@ =~= b_partner(cap@));
                            if self.is_highest_with(key, cap) {
                                match self.find_pin_with(key, want.as_str()) {
                                    None => {
                                        proof {
                                            assert(pin_has(*self, key, cap@));
                                            assert forall|j: u8| j != key implies !#[trigger] pin_has(*self, j, b_partner(cap@)) by {
                                                if pin_has(*self, j, b_partner(cap@)) {
                                                    lemma_first_pin_with_finds(*self, key, b_partner(cap@), 0, j);
                                                }
                                            }
                                        }
                                        return Some((pin.capabilities[i].clone(), key));
                                    },
                                    Some(_) => {
                                        proof {
                                            lemma_first_pin_with(*self, key, want@, 0);
                                        }
                                    },
                                }
                            }
                        }
                        i = i + 1;
                    }
                    proof {
                        assert forall|c: Seq<char>| !#[trigger] encoder_unpaired(*self, key, c) by {
                            if encoder_unpaired(*self, key, c) {
                                let t = choose|t: int| 0 <= t < cap_seq(*pin).len() && cap_seq(*pin)[t] == c;
                                assert(!encoder_unpaired(*self, key, cap_seq(*pin)[t]));
                            }
                        }
                    }
                },
            }
            proof {
                assert forall|j: u8, c: Seq<char>| j < k + 1 implies !#[trigger] encoder_unpaired(*self, j, c) by {
                    if j == key {
                        if encoder_unpaired(*self, j, c) {
                            assert(pin_has(*self, j, c));
                        }
                    }
                }
            }
            k = k + 1;
        }
        None
    }

    fn any_with_prefix(&self, pre: &str) -> (r: bool)
        ensures
            r == exists|k: u8| #[trigger] pin_has_prefixed(*self, k, pre@),
    {
        let mut k: u16 = 0;
        while k < 256
            invariant
                k <= 256,
                forall|j: u8| j < k ==> !#[trigger] pin_has_prefixed(*self, j, pre@),
            decreases 256 - k,
        {
            let key = k as u8;
            match self.pins.get(&key) {
                None => {},
                Some(pin) => {
                    let n = pin.capabilities.len();
                    let mut i: usize = 0;
                    while i < n
                        invariant
                            n == pin.capabilities@.len(),
                            *pin == self.pins@[key],
                            self.pins@.contains_key(key),
                            i <= n,
                            forall|t: int| 0 <= t < i ==> !has_prefix(#[trigger] cap_seq(*pin)[t], pre@),
                        decreases n - i,
                    {
                        if starts_with(pin.capabilities[i].as_str(), pre) {
                            assert(has_prefix(cap_seq(*pin)[i as int], pre@));
                            assert(pin_has_prefixed(*self, key, pre@));
                            return true;
                        }
                        i = i + 1;
                    }
                },
            }
            k = k + 1;
        }
        false
    }

    /// The PWM channel entries sorted by channel, keeping pin order among
    /// equal channels.
    fn pwm_sorted(&self) -> (r: Vec<(u32, u8)>)
        ensures
            r@ == stable_sort_by_channel(pwm_entries(*self, 0)),
    {
        proof {
            reveal_strlit("PWM_");
        }
        let mut sorted: Vec<(u32, u8)> = Vec::new();
        let ghost mut processed: Seq<(u32, u8)> = Seq::empty();
        let mut k: u16 = 0;
        while k < 256
            invariant
                k <= 256,
                sorted@ == stable_sort_by_channel(processed),
                processed + pwm_entries(*self, k as int) == pwm_entries(*self, 0),
            decreases 256 - k,
        {
            let key = k as u8;
            let ghost before = processed;
            match self.pins.get(&key) {
                None => {},
                Some(pin) => {
                    let n = pin.capabilities.len();
                    let mut i: usize = 0;
                    while i < n
                        invariant
                            n == pin.capabilities@.len(),
                            *pin == self.pins@[key],
                            i <= n,
                            sorted@ == stable_sort_by_channel(processed),
                            processed == before + pwm_pairs(cap_seq(*pin).take(i as int), key),
                        decreases n - i,
                    {
                        let cap = pin.capabilities[i].as_str();
                        assert(cap@ == cap_seq(*pin)[i as int]);
                        proof {
                            reveal_strlit("PWM_");
                            assert(cap_seq(*pin).take(i + 1).drop_last() =~= cap_seq(*pin).take(i as int));
                        }
                        if starts_with(cap, "PWM_") {
                            let len = cap.unicode_len();
                            let rest = substring(cap, 4, len);
                            assert(rest@ =~= cap@.skip(4));
                            match parse_u32(rest.as_str()) {
                                Some(v) => {
                                    let e = (v, key);
                                    let mut pos: usize = sorted.len();
                                    while pos > 0 && sorted[pos - 1].0 > v
                                        invariant
                                            pos <= sorted@.len(),
                                            forall|q: int| pos <= q < sorted@.len() ==> sorted@[q].0 > v,
                                        decreases pos,
                                    {
                                        pos = pos - 1;
                                    }
                                    proof {
                                        lemma_insert_by_channel(sorted@, e, pos as int);
                                        assert((processed.push(e)).drop_last() =~= processed);
                                    }
                                    sorted.insert(pos, e);
                                    proof {
                                        processed = processed.push(e);
                                    }
                                },
                                None => {},
                            }
                        }
                        assert(processed =~= before + pwm_pairs(cap_seq(*pin).take(i + 1), key));
                        i = i + 1;
                    }
                    assert(cap_seq(*pin).take(n as int) =~= cap_seq(*pin));
                },
            }
            proof {
                if !self.pins@.contains_key(key) {
                    assert(processed =~= before + Seq::<(u32, u8)>::empty());
                }
                assert(processed + pwm_entries(*self, k + 1) =~= before + pwm_entries(*self, k as int));
            }
            k = k + 1;
        }
        assert(processed =~= processed + pwm_entries(*self, 256));
        sorted
    }

    fn first_pwm_gap(sorted: &Vec<(u32, u8)>) -> (r: Option<usize>)
        ensures
            r matches Some(j) ==> first_gap(sorted@, 0) == Some(j as int) && j < sorted@.len(),
            r is None ==> first_gap(sorted@, 0) is None,
    {
        let n = sorted.len();
        let mut i: usize = 0;
        while i < n
            invariant
                n == sorted@.len(),
                i <= n,
                first_gap(sorted@, 0) == first_gap(sorted@, i as int),
            decreases n - i,
        {
            if sorted[i].0 as u64 != i as u64 + 1 {
                return Some(i);
            }
            i = i + 1;
        }
        None
    }

    /// Check that the model is well formed: it has a name and pins, every pin
    /// lists a capability, every encoder A has a B on another pin, matrix
    /// keyboard rows and columns come together, and PWM channels, sorted,
    /// run 1, 2, 3, ...
    pub fn validate(&self) -> (r: Result<()>)
        ensures
            model_validation_outcome(*self, r),
    {
        proof {
            reveal_strlit("Model name cannot be empty");
            reveal_strlit("Model must define at least one pin");
            reveal_strlit("Matrix keyboard has rows but no columns");
            reveal_strlit("Matrix keyboard has columns but no rows");
        }
        if self.name.as_str().unicode_len() == 0 {
            return Err(PoKeysError::ModelValidationError(string_of("Model name cannot be empty")));
        }
        if self.pins.is_empty() {
            return Err(PoKeysError::ModelValidationError(string_of("Model must define at least one pin")));
        }
        match self.first_empty() {
            Some(p) => {
                let mut s = string_of("Pin ");
                push_dec(&mut s, p as u64);
                s.append(" must have at least one capability");
                return Err(PoKeysError::ModelValidationError(s));
            },
            None => {},
        }
        match self.find_unpaired() {
            Some((cap, k)) => {
                let len = cap.as_str().unicode_len();
                proof {
                    reveal_strlit("Encoder_");
                    reveal_strlit("A");
                    assert(cap@.take(8)[7] == '_');
                    if len == 8 {
                        assert(cap@ =~= cap@.take(8));
                        assert(cap@[7] == '_');
                        assert(cap@.skip(7)[0] == cap@[7]);
                    }
                }
                let id = substring(cap.as_str(), 8, len - 1);
                let mut s = string_of("Encoder ");
                s.append(id.as_str());
                s.append("A on pin ");
                push_dec(&mut s, k as u64);
                s.append(" has no corresponding ");
                s.append("Encoder_");
                s.append(id.as_str());
                s.append("B");
                s.append("B pin");
                assert(s@ =~= unpaired_text(cap@, k));
                return Err(PoKeysError::ModelValidationError(s));
            },
            None => {},
        }
        let has_rows = self.any_with_prefix("MatrixKeyboard_Row");
        let has_cols = self.any_with_prefix("MatrixKeyboard_Col");
        if has_rows && !has_cols {
            return Err(PoKeysError::ModelValidationError(string_of("Matrix keyboard has rows but no columns")));
        }
        if !has_rows && has_cols {
            return Err(PoKeysError::ModelValidationError(string_of("Matrix keyboard has columns but no rows")));
        }
        let sorted = self.pwm_sorted();
        let total = sorted.len();
        assert(!(first_empty_pin(*self, 0) is Some));
        assert(!(exists|k: u8, c: Seq<char>| encoder_unpaired(*self, k, c)));
        match Self::first_pwm_gap(&sorted) {
            Some(j) => {
                let mut s = string_of("PWM channels are not sequential: expected channel ");
                push_dec(&mut s, (j + 1) as u64);
                s.append(", found channel ");
                push_dec(&mut s, sorted[j].0 as u64);
                s.append(" on pin ");
                push_dec(&mut s, sorted[j].1 as u64);
                assert(s@ =~= pwm_gap_text((j + 1) as nat, sorted@[j as int].0, sorted@[j as int].1));
                let r = Err(PoKeysError::ModelValidationError(s));
                assert(model_validation_outcome(*self, r));
                r
            },
            None => {
                assert(model_validation_outcome(*self, Ok(())));
                Ok(())
            },
        }
    }
}

/// A pin that lists the capability is found by `first_pin_with`, unless a
/// lower one is.
pub proof fn lemma_first_pin_with_finds(m: DeviceModel, exclude: u8, c: Seq<char>, from: int, j: u8)
    requires
        0 <= from <= j,
        j != exclude,
        pin_has(m, j, c),
    ensures
        first_pin_with(m, exclude, c, from) is Some,
    decreases 256 - from,
{
    if from < j {
        lemma_first_pin_with_finds(m, exclude, c, from + 1, j);
    }
}

} // verus!
