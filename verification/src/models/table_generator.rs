//! A Markdown table of the pin capabilities of a device model: a row per
//! pin, then the encoder pairs and the matrix keyboard rows and columns that
//! the capabilities name.
//!
//! Pins are visited in ascending order, and the capabilities of a pin in
//! list order. Encoder identifiers and matrix keyboard capabilities are
//! ordered by their characters, compared one by one by code point.

use vstd::prelude::*;
use vstd::string::*;
use crate::models::{DeviceModel, PinModel, cap_seq, encoder_id, prefixed_pairs};
use crate::text::{contains_seq, contains_str, dec, has_prefix, push_dec, starts_with, str_equal, substring, texts};

verus! {

broadcast use vstd::std_specs::hash::group_hash_axioms;

/// Whether `a` comes before `b` in the order of their characters: at the
/// first position where they differ the character of `a` is lower, or `a`
/// is a proper prefix of `b`.
pub open spec fn lex_lt(a: Seq<char>, b: Seq<char>) -> bool
    decreases a.len(),
{
    if b.len() == 0 {
        false
    } else if a.len() == 0 {
        true
    } else if a[0] != b[0] {
        (a[0] as u32) < (b[0] as u32)
    } else {
        lex_lt(a.drop_first(), b.drop_first())
    }
}

/// The characters and pin of each entry of a sequence.
pub open spec fn text_pins(v: Seq<(String, u8)>) -> Seq<(Seq<char>, u8)> {
    v.map_values(|e: (String, u8)| (e.0@, e.1))
}

/// A check mark where a capability is listed, a space where it is not.
pub open spec fn mark(listed: bool) -> Seq<char> {
    if listed { "\u{2713}"@ } else { " "@ }
}

/// Whether a capability goes to the special functions column: it names none
/// of the digital input, digital output and analog input capabilities.
pub open spec fn is_special(c: Seq<char>) -> bool {
    !contains_seq(c, "DigitalInput"@) && !contains_seq(c, "DigitalOutput"@) && !contains_seq(c, "AnalogInput"@)
}

/// The special capabilities of a list, in list order.
pub open spec fn specials(caps: Seq<Seq<char>>) -> Seq<Seq<char>>
    decreases caps.len(),
{
    if caps.len() == 0 {
        Seq::empty()
    } else {
        specials(caps.drop_last()) + (if is_special(caps.last()) { seq![caps.last()] } else { Seq::empty() })
    }
}

/// The items joined with `sep` between each two.
pub open spec fn join(items: Seq<Seq<char>>, sep: Seq<char>) -> Seq<char>
    decreases items.len(),
{
    if items.len() == 0 {
        Seq::empty()
    } else if items.len() == 1 {
        items[0]
    } else {
        join(items.drop_last(), sep) + sep + items.last()
    }
}

/// The special functions column: the special capabilities joined by `, `,
/// or a space where there are none.
pub open spec fn special_text(caps: Seq<Seq<char>>) -> Seq<char> {
    if specials(caps).len() == 0 { " "@ } else { join(specials(caps), ", "@) }
}

/// `| <pin> | <DI> | <DO> | <AI> | <special> |` and a line feed.
pub open spec fn pin_row(pin: u8, caps: Seq<Seq<char>>) -> Seq<char> {
    "| "@ + dec(pin as nat) + " | "@ + mark(caps.contains("DigitalInput"@)) + " | "@ + mark(
        caps.contains("DigitalOutput"@),
    ) + " | "@ + mark(caps.contains("AnalogInput"@)) + " | "@ + special_text(caps) + " |\n"@
}

/// The rows of the pins from `from` on, by ascending pin.
pub open spec fn pin_rows(m: DeviceModel, from: int) -> Seq<char>
    decreases 256 - from,
{
    if from >= 256 || from < 0 {
        Seq::empty()
    } else {
        (if m.pins@.contains_key(from as u8) {
            pin_row(from as u8, cap_seq(m.pins@[from as u8]))
        } else {
            Seq::empty()
        }) + pin_rows(m, from + 1)
    }
}

/// The title and the column headings.
pub open spec fn table_header(name: Seq<char>) -> Seq<char> {
    "# Pin Capabilities for "@ + name + "\n\n"@
        + "| Pin | Digital Input | Digital Output | Analog Input | Special Functions |\n"@
        + "|-----|--------------|----------------|--------------|-------------------|\n"@
}

/// Whether a capability names an encoder pin: `Encoder_`, an identifier of
/// at least one character and a role character.
pub open spec fn is_encoder_entry(c: Seq<char>) -> bool {
    has_prefix(c, "Encoder_"@) && c.len() >= 10
}

/// The encoder entries of a list of capabilities: identifier, role and pin.
pub open spec fn encoder_entries_of(caps: Seq<Seq<char>>, pin: u8) -> Seq<(Seq<char>, char, u8)>
    decreases caps.len(),
{
    if caps.len() == 0 {
        Seq::empty()
    } else {
        encoder_entries_of(caps.drop_last(), pin) + (if is_encoder_entry(caps.last()) {
            seq![(encoder_id(caps.last()), caps.last().last(), pin)]
        } else {
            Seq::empty()
        })
    }
}

/// The encoder entries of the pins from `from` on, by ascending pin.
pub open spec fn encoder_entries(m: DeviceModel, from: int) -> Seq<(Seq<char>, char, u8)>
    decreases 256 - from,
{
    if from >= 256 || from < 0 {
        Seq::empty()
    } else {
        (if m.pins@.contains_key(from as u8) {
            encoder_entries_of(cap_seq(m.pins@[from as u8]), from as u8)
        } else {
            Seq::empty()
        }) + encoder_entries(m, from + 1)
    }
}

/// Insert an identifier after every identifier that does not come after
/// it, unless the one just before is the same.
pub open spec fn insert_id(s: Seq<Seq<char>>, x: Seq<char>) -> Seq<Seq<char>>
    decreases s.len(),
{
    if s.len() == 0 {
        seq![x]
    } else if !lex_lt(x, s.last()) {
        if s.last() == x { s } else { s.push(x) }
    } else {
        insert_id(s.drop_last(), x).push(s.last())
    }
}

/// The identifiers of the entries, each once, in order.
pub open spec fn sorted_ids(e: Seq<(Seq<char>, char, u8)>) -> Seq<Seq<char>>
    decreases e.len(),
{
    if e.len() == 0 {
        Seq::empty()
    } else {
        insert_id(sorted_ids(e.drop_last()), e.last().0)
    }
}

/// The pin of the last entry with identifier `id` and role `role`, or 0.
pub open spec fn role_pin(e: Seq<(Seq<char>, char, u8)>, id: Seq<char>, role: char) -> u8
    decreases e.len(),
{
    if e.len() == 0 {
        0
    } else if e.last().0 == id && e.last().1 == role {
        e.last().2
    } else {
        role_pin(e.drop_last(), id, role)
    }
}

/// `| <id> | <pin A> | <pin B> |` and a line feed.
pub open spec fn encoder_row(e: Seq<(Seq<char>, char, u8)>, id: Seq<char>) -> Seq<char> {
    "| "@ + id + " | "@ + dec(role_pin(e, id, 'A') as nat) + " | "@ + dec(role_pin(e, id, 'B') as nat) + " |\n"@
}

/// The rows of the identifiers, in their order.
pub open spec fn encoder_rows(e: Seq<(Seq<char>, char, u8)>, ids: Seq<Seq<char>>) -> Seq<char>
    decreases ids.len(),
{
    if ids.len() == 0 {
        Seq::empty()
    } else {
        encoder_rows(e, ids.drop_last()) + encoder_row(e, ids.last())
    }
}

/// The encoder pairs section, where the model names any encoder pin.
pub open spec fn encoder_section(m: DeviceModel) -> Seq<char> {
    let e = encoder_entries(m, 0);
    let ids = sorted_ids(e);
    if ids.len() == 0 {
        Seq::empty()
    } else {
        "\n## Encoder Pairs\n\n"@ + "| Encoder | Pin A | Pin B |\n"@ + "|---------|-------|-------|\n"@
            + encoder_rows(e, ids)
    }
}

/// The capabilities beginning with `pre` of the pins from `from` on, with
/// their pins: by ascending pin, then in list order.
pub open spec fn all_prefixed(m: DeviceModel, pre: Seq<char>, from: int) -> Seq<(Seq<char>, u8)>
    decreases 256 - from,
{
    if from >= 256 || from < 0 {
        Seq::empty()
    } else {
        (if m.pins@.contains_key(from as u8) {
            prefixed_pairs(cap_seq(m.pins@[from as u8]), pre, from as u8)
        } else {
            Seq::empty()
        }) + all_prefixed(m, pre, from + 1)
    }
}

/// Insert an entry after every entry whose text does not come after its own.
pub open spec fn insert_by_text(s: Seq<(Seq<char>, u8)>, e: (Seq<char>, u8)) -> Seq<(Seq<char>, u8)>
    decreases s.len(),
{
    if s.len() == 0 {
        seq![e]
    } else if !lex_lt(e.0, s.last().0) {
        s.push(e)
    } else {
        insert_by_text(s.drop_last(), e).push(s.last())
    }
}

/// The entries ordered by text, keeping the order of equal texts.
pub open spec fn sort_by_text(s: Seq<(Seq<char>, u8)>) -> Seq<(Seq<char>, u8)>
    decreases s.len(),
{
    if s.len() == 0 {
        s
    } else {
        insert_by_text(sort_by_text(s.drop_last()), s.last())
    }
}

/// `| <pin> | <label> |` and a line feed for each entry, the label being
/// the text after its 18-character prefix (the row or column number).
pub open spec fn matrix_lines(s: Seq<(Seq<char>, u8)>) -> Seq<char>
    decreases s.len(),
{
    if s.len() == 0 {
        Seq::empty()
    } else {
        matrix_lines(s.drop_last()) + "| "@ + dec(s.last().1 as nat) + " | "@ + s.last().0.skip(18) + " |\n"@
    }
}

/// The matrix keyboard section, where the model names both rows and columns.
pub open spec fn matrix_section(m: DeviceModel) -> Seq<char> {
    let rows = sort_by_text(all_prefixed(m, "MatrixKeyboard_Row"@, 0));
    let cols = sort_by_text(all_prefixed(m, "MatrixKeyboard_Col"@, 0));
    if rows.len() > 0 && cols.len() > 0 {
        "\n## Matrix Keyboard\n\n"@ + "### Rows\n\n"@ + "| Pin | Row |\n"@ + "|-----|-----|\n"@ + matrix_lines(rows)
            + "\n### Columns\n\n"@ + "| Pin | Column |\n"@ + "|-----|--------|\n"@ + matrix_lines(cols)
    } else {
        Seq::empty()
    }
}

/// The whole table of a model.
pub open spec fn pin_capability_table(m: DeviceModel) -> Seq<char> {
    table_header(m.name@) + pin_rows(m, 0) + encoder_section(m) + matrix_section(m)
}

/// Whether every encoder capability of the model that is longer than its
/// prefix ends in an ASCII character, so that its identifier and role can be
/// cut at byte positions.
pub open spec fn encoder_caps_end_in_ascii(m: DeviceModel) -> bool {
    forall|p: u8, i: int|
        #![trigger cap_seq(m.pins@[p])[i]]
        m.pins@.contains_key(p) && 0 <= i < cap_seq(m.pins@[p]).len() && has_prefix(cap_seq(m.pins@[p])[i], "Encoder_"@)
            && cap_seq(m.pins@[p])[i].len() >= 9 ==> (cap_seq(m.pins@[p])[i].last() as u32) < 128
}

/// Whether `a` comes before `b` in the order of their characters.
pub fn text_lt(a: &str, b: &str) -> (r: bool)
    ensures
        r == lex_lt(a@, b@),
{
    let n = a.unicode_len();
    let m = b.unicode_len();
    let mut i: usize = 0;
    assert(a@.skip(0) =~= a@ && b@.skip(0) =~= b@);
    while i < n && i < m
        invariant
            n == a@.len(),
            m == b@.len(),
            i <= n,
            i <= m,
            lex_lt(a@, b@) == lex_lt(a@.skip(i as int), b@.skip(i as int)),
        decreases n - i,
    {
        let ca = a.get_char(i);
        let cb = b.get_char(i);
        let ghost x = a@.skip(i as int);
        let ghost y = b@.skip(i as int);
        assert(x[0] == ca && y[0] == cb);
        if ca != cb {
            return (ca as u32) < (cb as u32);
        }
        assert(x.drop_first() =~= a@.skip(i + 1));
        assert(y.drop_first() =~= b@.skip(i + 1));
        i = i + 1;
    }
    assert(a@.skip(i as int).len() == n - i);
    assert(b@.skip(i as int).len() == m - i);
    i < m
}

/// Whether a pin lists capability `c`.
fn lists(pin: &PinModel, c: &str) -> (r: bool)
    ensures
        r == cap_seq(*pin).contains(c@),
{
    let n = pin.capabilities.len();
    let mut i: usize = 0;
    while i < n
        invariant
            n == cap_seq(*pin).len(),
            i <= n,
            forall|t: int| 0 <= t < i ==> cap_seq(*pin)[t] != c@,
        decreases n - i,
    {
        if str_equal(pin.capabilities[i].as_str(), c) {
            assert(cap_seq(*pin)[i as int] == c@);
            return true;
        }
        i = i + 1;
    }
    false
}

/// Append the special functions column of a pin.
fn push_specials(s: &mut String, pin: &PinModel)
    ensures
        final(s)@ == old(s)@ + special_text(cap_seq(*pin)),
{
    let n = pin.capabilities.len();
    let mut text = String::new();
    let mut count: usize = 0;
    let mut i: usize = 0;
    while i < n
        invariant
            n == cap_seq(*pin).len(),
            i <= n,
            count <= i,
            count == specials(cap_seq(*pin).take(i as int)).len(),
            text@ == join(specials(cap_seq(*pin).take(i as int)), ", "@),
        decreases n - i,
    {
        let cap = pin.capabilities[i].as_str();
        assert(cap@ == cap_seq(*pin)[i as int]);
        let ghost before = specials(cap_seq(*pin).take(i as int));
        assert(cap_seq(*pin).take(i + 1).drop_last() =~= cap_seq(*pin).take(i as int));
        assert(cap_seq(*pin).take(i + 1).last() == cap@);
        let special = !contains_str(cap, "DigitalInput") && !contains_str(cap, "DigitalOutput") && !contains_str(
            cap,
            "AnalogInput",
        );
        if special {
            assert(specials(cap_seq(*pin).take(i + 1)) =~= before.push(cap@));
            if count > 0 {
                text.append(", ");
                assert(before.push(cap@).drop_last() =~= before);
            }
            text.append(cap);
            count = count + 1;
        } else {
            assert(specials(cap_seq(*pin).take(i + 1)) =~= before);
        }
        i = i + 1;
    }
    assert(cap_seq(*pin).take(n as int) =~= cap_seq(*pin));
    if count == 0 {
        s.append(" ");
    } else {
        s.append(text.as_str());
    }
}

/// Append a check mark or a space.
fn push_mark(s: &mut String, listed: bool)
    ensures
        final(s)@ == old(s)@ + mark(listed),
{
    if listed {
        s.append("\u{2713}");
    } else {
        s.append(" ");
    }
}

/// Append the row of a pin.
fn push_pin_row(s: &mut String, key: u8, pin: &PinModel)
    ensures
        final(s)@ == old(s)@ + pin_row(key, cap_seq(*pin)),
{
    let ghost start = s@;
    let ghost caps = cap_seq(*pin);
    s.append("| ");
    push_dec(s, key as u64);
    s.append(" | ");
    let ghost p1 = "| "@ + dec(key as nat) + " | "@;
    assert(s@ =~= start + p1);
    let di = lists(pin, "DigitalInput");
    push_mark(s, di);
    s.append(" | ");
    let ghost p2 = p1 + mark(caps.contains("DigitalInput"@)) + " | "@;
    assert(s@ =~= start + p2);
    let d_o = lists(pin, "DigitalOutput");
    push_mark(s, d_o);
    s.append(" | ");
    let ghost p3 = p2 + mark(caps.contains("DigitalOutput"@)) + " | "@;
    assert(s@ =~= start + p3);
    let ai = lists(pin, "AnalogInput");
    push_mark(s, ai);
    s.append(" | ");
    let ghost p4 = p3 + mark(caps.contains("AnalogInput"@)) + " | "@;
    assert(s@ =~= start + p4);
    push_specials(s, pin);
    s.append(" |\n");
    assert(s@ =~= start + (p4 + special_text(caps) + " |\n"@));
    assert(p4 + special_text(caps) + " |\n"@ == pin_row(key, caps));
}

/// Append the rows of all pins, by ascending pin.
fn push_pin_rows(s: &mut String, model: &DeviceModel)
    ensures
        final(s)@ == old(s)@ + pin_rows(*model, 0),
{
    let ghost start = s@;
    let mut k: u16 = 0;
    while k < 256
        invariant
            k <= 256,
            s@ + pin_rows(*model, k as int) == start + pin_rows(*model, 0),
        decreases 256 - k,
    {
        let key = k as u8;
        let ghost before = s@;
        match model.pins.get(&key) {
            None => {},
            Some(pin) => {
                push_pin_row(s, key, pin);
            },
        }
        assert(s@ + pin_rows(*model, k + 1) =~= before + pin_rows(*model, k as int));
        k = k + 1;
    }
    assert(s@ =~= s@ + pin_rows(*model, 256));
}

proof fn lemma_insert_id(s: Seq<Seq<char>>, x: Seq<char>, pos: int)
    requires
        0 <= pos <= s.len(),
        forall|k: int| pos <= k < s.len() ==> lex_lt(x, #[trigger] s[k]),
        pos > 0 ==> !lex_lt(x, s[pos - 1]),
    ensures
        insert_id(s, x) == (if pos > 0 && s[pos - 1] == x { s } else { s.insert(pos, x) }),
    decreases s.len(),
{
    if s.len() == 0 {
        assert(s.insert(pos, x) =~= seq![x]);
    } else if s.len() == pos {
        assert(s.insert(pos, x) =~= s.push(x));
    } else {
        lemma_insert_id(s.drop_last(), x, pos);
        if pos > 0 && s[pos - 1] == x {
            assert(s.drop_last().push(s.last()) =~= s);
        } else {
            assert(s.drop_last().insert(pos, x).push(s.last()) =~= s.insert(pos, x));
        }
    }
}

/// The encoder identifiers of the model, each once, in order.
fn encoder_ids(model: &DeviceModel) -> (r: Vec<String>)
    ensures
        texts(r@) == sorted_ids(encoder_entries(*model, 0)),
{
    proof {
        reveal_strlit("Encoder_");
    }
    let mut ids: Vec<String> = Vec::new();
    let ghost mut processed: Seq<(Seq<char>, char, u8)> = Seq::empty();
    assert(texts(ids@) =~= Seq::<Seq<char>>::empty());
    let mut k: u16 = 0;
    while k < 256
        invariant
            k <= 256,
            texts(ids@) == sorted_ids(processed),
            processed + encoder_entries(*model, k as int) == encoder_entries(*model, 0),
        decreases 256 - k,
    {
        let key = k as u8;
        let ghost before = processed;
        match model.pins.get(&key) {
            None => {},
            Some(pin) => {
                let n = pin.capabilities.len();
                let mut i: usize = 0;
                while i < n
                    invariant
                        n == cap_seq(*pin).len(),
                        i <= n,
                        texts(ids@) == sorted_ids(processed),
                        processed == before + encoder_entries_of(cap_seq(*pin).take(i as int), key),
                    decreases n - i,
                {
                    let cap = pin.capabilities[i].as_str();
                    assert(cap@ == cap_seq(*pin)[i as int]);
                    proof {
                        reveal_strlit("Encoder_");
                        assert(cap_seq(*pin).take(i + 1).drop_last() =~= cap_seq(*pin).take(i as int));
                    }
                    let len = cap.unicode_len();
                    if starts_with(cap, "Encoder_") && len >= 10 {
                        let id = substring(cap, 8, len - 1);
                        let role = cap.get_char(len - 1);
                        let ghost entry = (id@, role, key);
                        assert(entry == (encoder_id(cap@), cap@.last(), key));
                        let mut pos: usize = ids.len();
                        while pos > 0 && text_lt(id.as_str(), ids[pos - 1].as_str())
                            invariant
                                pos <= ids@.len(),
                                forall|q: int| pos <= q < ids@.len() ==> lex_lt(id@, #[trigger] texts(ids@)[q]),
                            decreases pos,
                        {
                            pos = pos - 1;
                        }
                        proof {
                            lemma_insert_id(texts(ids@), id@, pos as int);
                            assert(processed.push(entry).drop_last() =~= processed);
                        }
                        if pos > 0 && str_equal(ids[pos - 1].as_str(), id.as_str()) {
                        } else {
                            let ghost old_ids = ids@;
                            ids.insert(pos, id);
                            assert(texts(ids@) =~= texts(old_ids).insert(pos as int, entry.0));
                        }
                        proof {
                            processed = processed.push(entry);
                        }
                    }
                    assert(processed =~= before + encoder_entries_of(cap_seq(*pin).take(i + 1), key));
                    i = i + 1;
                }
                assert(cap_seq(*pin).take(n as int) =~= cap_seq(*pin));
            },
        }
        proof {
            if !model.pins@.contains_key(key) {
                assert(processed =~= before + Seq::<(Seq<char>, char, u8)>::empty());
            }
            assert(processed + encoder_entries(*model, k + 1) =~= before + encoder_entries(*model, k as int));
        }
        k = k + 1;
    }
    assert(processed =~= processed + encoder_entries(*model, 256));
    ids
}

/// The pin of the last encoder entry of the model with identifier `id` and
/// role `role`, or 0.
fn encoder_pin(model: &DeviceModel, id: &str, role: char) -> (r: u8)
    ensures
        r == role_pin(encoder_entries(*model, 0), id@, role),
{
    proof {
        reveal_strlit("Encoder_");
    }
    let mut found: u8 = 0;
    let ghost mut processed: Seq<(Seq<char>, char, u8)> = Seq::empty();
    let mut k: u16 = 0;
    while k < 256
        invariant
            k <= 256,
            found == role_pin(processed, id@, role),
            processed + encoder_entries(*model, k as int) == encoder_entries(*model, 0),
        decreases 256 - k,
    {
        let key = k as u8;
        let ghost before = processed;
        match model.pins.get(&key) {
            None => {},
            Some(pin) => {
                let n = pin.capabilities.len();
                let mut i: usize = 0;
                while i < n
                    invariant
                        n == cap_seq(*pin).len(),
                        i <= n,
                        found == role_pin(processed, id@, role),
                        processed == before + encoder_entries_of(cap_seq(*pin).take(i as int), key),
                    decreases n - i,
                {
                    let cap = pin.capabilities[i].as_str();
                    assert(cap@ == cap_seq(*pin)[i as int]);
                    proof {
                        reveal_strlit("Encoder_");
                        assert(cap_seq(*pin).take(i + 1).drop_last() =~= cap_seq(*pin).take(i as int));
                    }
                    let len = cap.unicode_len();
                    if starts_with(cap, "Encoder_") && len >= 10 {
                        let this_id = substring(cap, 8, len - 1);
                        let this_role = cap.get_char(len - 1);
                        let ghost entry = (this_id@, this_role, key);
                        assert(entry == (encoder_id(cap@), cap@.last(), key));
                        if str_equal(this_id.as_str(), id) && this_role == role {
                            found = key;
                        }
                        proof {
                            assert(processed.push(entry).drop_last() =~= processed);
                            processed = processed.push(entry);
                        }
                    }
                    assert(processed =~= before + encoder_entries_of(cap_seq(*pin).take(i + 1), key));
                    i = i + 1;
                }
                assert(cap_seq(*pin).take(n as int) =~= cap_seq(*pin));
            },
        }
        proof {
            if !model.pins@.contains_key(key) {
                assert(processed =~= before + Seq::<(Seq<char>, char, u8)>::empty());
            }
            assert(processed + encoder_entries(*model, k + 1) =~= before + encoder_entries(*model, k as int));
        }
        k = k + 1;
    }
    assert(processed =~= processed + encoder_entries(*model, 256));
    found
}

/// Append the encoder pairs section of the model.
fn push_encoder_section(s: &mut String, model: &DeviceModel)
    ensures
        final(s)@ == old(s)@ + encoder_section(*model),
{
    let ghost e = encoder_entries(*model, 0);
    let ids = encoder_ids(model);
    let n = ids.len();
    if n == 0 {
        assert(s@ =~= s@ + encoder_section(*model));
        return;
    }
    let ghost start = s@;
    s.append("\n## Encoder Pairs\n\n");
    s.append("| Encoder | Pin A | Pin B |\n");
    s.append("|---------|-------|-------|\n");
    let ghost head = s@;
    let mut j: usize = 0;
    assert(texts(ids@).take(0) =~= Seq::<Seq<char>>::empty());
    while j < n
        invariant
            n == ids@.len(),
            j <= n,
            s@ == head + encoder_rows(e, texts(ids@).take(j as int)),
            e == encoder_entries(*model, 0),
        decreases n - j,
    {
        let id = ids[j].as_str();
        assert(id@ == texts(ids@)[j as int]);
        let a = encoder_pin(model, id, 'A');
        let b = encoder_pin(model, id, 'B');
        let ghost mid = s@;
        s.append("| ");
        s.append(id);
        s.append(" | ");
        push_dec(s, a as u64);
        s.append(" | ");
        push_dec(s, b as u64);
        s.append(" |\n");
        assert(texts(ids@).take(j + 1).drop_last() =~= texts(ids@).take(j as int));
        assert(s@ =~= mid + encoder_row(e, id@));
        j = j + 1;
    }
    assert(texts(ids@).take(n as int) =~= texts(ids@));
    assert(s@ =~= start + encoder_section(*model));
}

proof fn lemma_insert_by_text(s: Seq<(Seq<char>, u8)>, e: (Seq<char>, u8), pos: int)
    requires
        0 <= pos <= s.len(),
        forall|k: int| pos <= k < s.len() ==> lex_lt(e.0, (#[trigger] s[k]).0),
        pos > 0 ==> !lex_lt(e.0, s[pos - 1].0),
    ensures
        insert_by_text(s, e) == s.insert(pos, e),
    decreases s.len(),
{
    if s.len() == 0 {
        assert(s.insert(pos, e) =~= seq![e]);
    } else if s.len() == pos {
        assert(s.insert(pos, e) =~= s.push(e));
    } else {
        lemma_insert_by_text(s.drop_last(), e, pos);
        assert(s.drop_last().insert(pos, e).push(s.last()) =~= s.insert(pos, e));
    }
}

/// The capabilities beginning with `pre` with their pins, ordered by text,
/// pins in ascending order among equal texts.
fn matrix_entries(model: &DeviceModel, pre: &str) -> (r: Vec<(String, u8)>)
    ensures
        text_pins(r@) == sort_by_text(all_prefixed(*model, pre@, 0)),
        forall|q: int| 0 <= q < r@.len() ==> has_prefix(#[trigger] r@[q].0@, pre@),
{
    let mut sorted: Vec<(String, u8)> = Vec::new();
    let ghost mut processed: Seq<(Seq<char>, u8)> = Seq::empty();
    assert(text_pins(sorted@) =~= Seq::<(Seq<char>, u8)>::empty());
    let mut k: u16 = 0;
    while k < 256
        invariant
            k <= 256,
            text_pins(sorted@) == sort_by_text(processed),
            forall|q: int| 0 <= q < sorted@.len() ==> has_prefix(#[trigger] sorted@[q].0@, pre@),
            processed + all_prefixed(*model, pre@, k as int) == all_prefixed(*model, pre@, 0),
        decreases 256 - k,
    {
        let key = k as u8;
        let ghost before = processed;
        match model.pins.get(&key) {
            None => {},
            Some(pin) => {
                let n = pin.capabilities.len();
                let mut i: usize = 0;
                while i < n
                    invariant
                        n == cap_seq(*pin).len(),
                        i <= n,
                        text_pins(sorted@) == sort_by_text(processed),
                        forall|q: int| 0 <= q < sorted@.len() ==> has_prefix(#[trigger] sorted@[q].0@, pre@),
                        processed == before + prefixed_pairs(cap_seq(*pin).take(i as int), pre@, key),
                    decreases n - i,
                {
                    let cap = pin.capabilities[i].as_str();
                    assert(cap@ == cap_seq(*pin)[i as int]);
                    proof {
                        assert(cap_seq(*pin).take(i + 1).drop_last() =~= cap_seq(*pin).take(i as int));
                    }
                    if starts_with(cap, pre) {
                        let text = substring(cap, 0, cap.unicode_len());
                        assert(text@ =~= cap@);
                        let ghost entry = (cap@, key);
                        let mut pos: usize = sorted.len();
                        while pos > 0 && text_lt(cap, sorted[pos - 1].0.as_str())
                            invariant
                                pos <= sorted@.len(),
                                forall|q: int| pos <= q < sorted@.len() ==> lex_lt(cap@, (#[trigger] text_pins(sorted@)[q]).0),
                            decreases pos,
                        {
                            pos = pos - 1;
                        }
                        proof {
                            lemma_insert_by_text(text_pins(sorted@), entry, pos as int);
                            assert(processed.push(entry).drop_last() =~= processed);
                        }
                        let ghost old_sorted = sorted@;
                        sorted.insert(pos, (text, key));
                        assert(text_pins(sorted@) =~= text_pins(old_sorted).insert(pos as int, entry));
                        assert forall|q: int| 0 <= q < sorted@.len() implies has_prefix(#[trigger] sorted@[q].0@, pre@) by {
                            if q < pos {
                                assert(sorted@[q] == old_sorted[q]);
                            } else if q > pos {
                                assert(sorted@[q] == old_sorted[q - 1]);
                            }
                        }
                        proof {
                            processed = processed.push(entry);
                        }
                    }
                    assert(processed =~= before + prefixed_pairs(cap_seq(*pin).take(i + 1), pre@, key));
                    i = i + 1;
                }
                assert(cap_seq(*pin).take(n as int) =~= cap_seq(*pin));
            },
        }
        proof {
            if !model.pins@.contains_key(key) {
                assert(processed =~= before + Seq::<(Seq<char>, u8)>::empty());
            }
            assert(processed + all_prefixed(*model, pre@, k + 1) =~= before + all_prefixed(*model, pre@, k as int));
        }
        k = k + 1;
    }
    assert(processed =~= processed + all_prefixed(*model, pre@, 256));
    sorted
}

/// Append a line for each entry: its pin and its text after the
/// 18-character prefix.
fn push_matrix_lines(s: &mut String, entries: &Vec<(String, u8)>)
    requires
        forall|q: int| 0 <= q < entries@.len() ==> (#[trigger] entries@[q]).0@.len() >= 18,
    ensures
        final(s)@ == old(s)@ + matrix_lines(text_pins(entries@)),
{
    let ghost start = s@;
    let n = entries.len();
    let mut j: usize = 0;
    assert(text_pins(entries@).take(0) =~= Seq::<(Seq<char>, u8)>::empty());
    while j < n
        invariant
            n == entries@.len(),
            j <= n,
            forall|q: int| 0 <= q < entries@.len() ==> (#[trigger] entries@[q]).0@.len() >= 18,
            s@ == start + matrix_lines(text_pins(entries@).take(j as int)),
        decreases n - j,
    {
        let text = entries[j].0.as_str();
        let pin = entries[j].1;
        let ghost mid = s@;
        assert(entries@[j as int].0@.len() >= 18);
        let tail = substring(text, 18, text.unicode_len());
        s.append("| ");
        push_dec(s, pin as u64);
        s.append(" | ");
        s.append(tail.as_str());
        s.append(" |\n");
        assert(text_pins(entries@).take(j + 1).drop_last() =~= text_pins(entries@).take(j as int));
        assert(text_pins(entries@).take(j + 1).last() == (text@, pin));
        assert(tail@ =~= text@.skip(18));
        assert(s@ =~= mid + "| "@ + dec(pin as nat) + " | "@ + text@.skip(18) + " |\n"@);
        j = j + 1;
    }
    assert(text_pins(entries@).take(n as int) =~= text_pins(entries@));
}

/// Append the matrix keyboard section of the model.
fn push_matrix_section(s: &mut String, model: &DeviceModel)
    ensures
        final(s)@ == old(s)@ + matrix_section(*model),
{
    proof {
        reveal_strlit("MatrixKeyboard_Row");
        reveal_strlit("MatrixKeyboard_Col");
    }
    let rows = matrix_entries(model, "MatrixKeyboard_Row");
    let cols = matrix_entries(model, "MatrixKeyboard_Col");
    if rows.len() == 0 || cols.len() == 0 {
        assert(s@ =~= s@ + matrix_section(*model));
        return;
    }
    let ghost start = s@;
    assert forall|q: int| 0 <= q < rows@.len() implies (#[trigger] rows@[q]).0@.len() >= 18 by {
        assert(has_prefix(rows@[q].0@, "MatrixKeyboard_Row"@));
    }
    assert forall|q: int| 0 <= q < cols@.len() implies (#[trigger] cols@[q]).0@.len() >= 18 by {
        assert(has_prefix(cols@[q].0@, "MatrixKeyboard_Col"@));
    }
    s.append("\n## Matrix Keyboard\n\n");
    s.append("### Rows\n\n");
    s.append("| Pin | Row |\n");
    s.append("|-----|-----|\n");
    push_matrix_lines(s, &rows);
    s.append("\n### Columns\n\n");
    s.append("| Pin | Column |\n");
    s.append("|-----|--------|\n");
    push_matrix_lines(s, &cols);
    assert(s@ =~= start + matrix_section(*model));
}

/// The Markdown table of the pin capabilities of a model: a title, a row per
/// pin in ascending order with check marks for digital input, digital output
/// and analog input and the other capabilities joined by `, `; then, where
/// the model names encoder pins (`Encoder_<id><role>`), each encoder
/// identifier once, in order, with the pins of roles `A` and `B` (the
/// highest such pin, or 0); then, where it names both matrix keyboard rows
/// and columns, their pins ordered by capability.
pub fn generate_pin_capability_table(model: &DeviceModel) -> (r: String)
    requires
        encoder_caps_end_in_ascii(*model),
    ensures
        r@ == pin_capability_table(*model),
{
    let mut table = String::new();
    table.append("# Pin Capabilities for ");
    table.append(model.name.as_str());
    table.append("\n\n");
    table.append("| Pin | Digital Input | Digital Output | Analog Input | Special Functions |\n");
    table.append("|-----|--------------|----------------|--------------|-------------------|\n");
    assert(table@ =~= table_header(model.name@));
    push_pin_rows(&mut table, model);
    push_encoder_section(&mut table, model);
    push_matrix_section(&mut table, model);
    table
}

} // verus!
