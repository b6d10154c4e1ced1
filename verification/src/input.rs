//! What the configuration prompts make of the user's keys and typed lines.
//!
//! Text is handled as a sequence of `char`s.
use vstd::prelude::*;

verus! {

/// Unicode `White_Space`, the whitespace that `str::trim` removes.
pub open spec fn is_whitespace_spec(c: char) -> bool {
    let v = c as u32;
    (0x09 <= v <= 0x0D) || v == 0x20 || v == 0x85 || v == 0xA0 || v == 0x1680 || (0x2000 <= v
        <= 0x200A) || v == 0x2028 || v == 0x2029 || v == 0x202F || v == 0x205F || v == 0x3000
}

/// Whether `c` is Unicode whitespace.
pub fn is_whitespace(c: char) -> (b: bool)
    ensures
        b == is_whitespace_spec(c),
{
    let v = c as u32;
    (0x09 <= v && v <= 0x0D) || v == 0x20 || v == 0x85 || v == 0xA0 || v == 0x1680 || (0x2000 <= v
        && v <= 0x200A) || v == 0x2028 || v == 0x2029 || v == 0x202F || v == 0x205F || v == 0x3000
}

/// `s` without its leading whitespace.
pub open spec fn trim_start(s: Seq<char>) -> Seq<char>
    decreases s.len(),
{
    if s.len() > 0 && is_whitespace_spec(s[0]) {
        trim_start(s.drop_first())
    } else {
        s
    }
}

/// `s` without its trailing whitespace.
pub open spec fn trim_end(s: Seq<char>) -> Seq<char>
    decreases s.len(),
{
    if s.len() > 0 && is_whitespace_spec(s.last()) {
        trim_end(s.drop_last())
    } else {
        s
    }
}

/// `s` without its leading and trailing whitespace.
pub open spec fn trim(s: Seq<char>) -> Seq<char> {
    trim_end(trim_start(s))
}

/// `s` with every leading repetition of the non-empty pattern `p` removed.
pub open spec fn trim_start_matches(s: Seq<char>, p: Seq<char>) -> Seq<char>
    decreases s.len(),
{
    if p.len() > 0 && s.len() >= p.len() && s.take(p.len() as int) == p {
        trim_start_matches(s.skip(p.len() as int), p)
    } else {
        s
    }
}

/// The characters of `s` from `i` to `j`, copied.
fn copy_range(s: &[char], i: usize, j: usize) -> (r: Vec<char>)
    requires
        i <= j <= s@.len(),
    ensures
        r@ == s@.subrange(i as int, j as int),
{
    let mut r: Vec<char> = Vec::new();
    let mut k: usize = i;
    while k < j
        invariant
            i <= k <= j <= s@.len(),
            r@ == s@.subrange(i as int, k as int),
        decreases j - k,
    {
        r.push(s[k]);
        k = k + 1;
        assert(r@ =~= s@.subrange(i as int, k as int));
    }
    r
}

/// `s` without its leading and trailing whitespace.
pub fn trim_whitespace(s: &[char]) -> (r: Vec<char>)
    ensures
        r@ == trim(s@),
{
    let n = s.len();
    let mut i: usize = 0;
    assert(s@.skip(0) =~= s@);
    while i < n && is_whitespace(s[i])
        invariant
            i <= n == s@.len(),
            trim_start(s@) == trim_start(s@.skip(i as int)),
        decreases n - i,
    {
        assert(s@.skip(i as int).drop_first() =~= s@.skip(i + 1));
        i = i + 1;
    }
    assert(trim_start(s@) == s@.skip(i as int)) by {
        if i < n {
            assert(s@.skip(i as int)[0] == s@[i as int]);
        }
    }
    let mut j: usize = n;
    while j > i && is_whitespace(s[j - 1])
        invariant
            i <= j <= n == s@.len(),
            trim_end(s@.skip(i as int)) == trim_end(s@.subrange(i as int, j as int)),
        decreases j - i,
    {
        assert(s@.subrange(i as int, j as int).drop_last() =~= s@.subrange(i as int, j - 1));
        j = j - 1;
    }
    assert(s@.skip(i as int) =~= s@.subrange(i as int, n as int));
    assert(trim_end(s@.subrange(i as int, j as int)) == s@.subrange(i as int, j as int)) by {
        if j > i {
            assert(s@.subrange(i as int, j as int).last() == s@[j - 1]);
        }
    }
    copy_range(s, i, j)
}

/// `s` with every leading repetition of `a` followed by `b` removed.
fn trim_start_pair(s: &[char], a: char, b: char) -> (r: Vec<char>)
    ensures
        r@ == trim_start_matches(s@, seq![a, b]),
{
    let ghost p = seq![a, b];
    let n = s.len();
    let mut i: usize = 0;
    assert(s@.skip(0) =~= s@);
    while n - i >= 2 && s[i] == a && s[i + 1] == b
        invariant
            i <= n == s@.len(),
            p == seq![a, b],
            trim_start_matches(s@, p) == trim_start_matches(s@.skip(i as int), p),
        decreases n - i,
    {
        assert(s@.skip(i as int).take(2) =~= p);
        assert(s@.skip(i as int).skip(2) =~= s@.skip(i + 2));
        i = i + 2;
    }
    assert(trim_start_matches(s@.skip(i as int), p) == s@.skip(i as int)) by {
        if s@.skip(i as int).len() >= 2 && s@.skip(i as int).take(2) == p {
            assert(s@.skip(i as int).take(2)[0] == s@[i as int]);
            assert(s@.skip(i as int).take(2)[1] == s@[i + 1]);
        }
    }
    assert(s@.skip(i as int) =~= s@.subrange(i as int, n as int));
    copy_range(s, i, n)
}

/// The value of a decimal digit.
pub open spec fn decimal_digit(c: char) -> int {
    c as int - '0' as int
}

/// `c` is one of `0` to `9`.
pub open spec fn is_decimal_digit(c: char) -> bool {
    '0' <= c <= '9'
}

/// Every character of `s` is a decimal digit.
pub open spec fn all_decimal(s: Seq<char>) -> bool {
    forall|i: int| 0 <= i < s.len() ==> is_decimal_digit(#[trigger] s[i])
}

/// The number that the decimal digits of `s` write.
pub open spec fn decimal_value(s: Seq<char>) -> int
    decreases s.len(),
{
    if s.len() == 0 {
        0
    } else {
        decimal_value(s.drop_last()) * 10 + decimal_digit(s.last())
    }
}

/// The `i32` that `s` writes as `str::parse::<i32>` reads it: an optional `+`
/// or `-`, then one or more decimal digits, the value within range.
pub open spec fn parse_i32_spec(s: Seq<char>) -> Option<i32> {
    let neg = s.len() > 0 && s[0] == '-';
    let body = if s.len() > 0 && (s[0] == '-' || s[0] == '+') {
        s.drop_first()
    } else {
        s
    };
    if body.len() == 0 || !all_decimal(body) {
        None
    } else {
        let v: int = if neg {
            -decimal_value(body)
        } else {
            decimal_value(body)
        };
        if i32::MIN <= v <= i32::MAX {
            Some(v as i32)
        } else {
            None
        }
    }
}

proof fn lemma_decimal_prefix_le(s: Seq<char>, k: int)
    requires
        all_decimal(s),
        0 <= k <= s.len(),
    ensures
        0 <= decimal_value(s.take(k)) <= decimal_value(s),
    decreases s.len(),
{
    if k == s.len() {
        assert(s.take(k) =~= s);
    }
    if s.len() > 0 {
        let d = s.drop_last();
        assert(all_decimal(d)) by {
            assert forall|i: int| 0 <= i < d.len() implies is_decimal_digit(#[trigger] d[i]) by {
                assert(d[i] == s[i]);
            }
        }
        assert(is_decimal_digit(s[s.len() - 1]));
        if k < s.len() {
            lemma_decimal_prefix_le(d, k);
            assert(d.take(k) =~= s.take(k));
        } else {
            lemma_decimal_prefix_le(d, d.len() as int);
            assert(d.take(d.len() as int) =~= d);
        }
    }
}

/// The magnitude of `i32::MIN`.
const I32_MAGNITUDE_LIMIT: u64 = 2147483648;

/// The decimal number in `s`, as `str::parse::<i32>` reads it.
pub fn parse_i32(s: &[char]) -> (r: Option<i32>)
    ensures
        r == parse_i32_spec(s@),
{
    let n = s.len();
    if n == 0 {
        return None;
    }
    let neg = s[0] == '-';
    let start: usize = if s[0] == '-' || s[0] == '+' {
        1
    } else {
        0
    };
    let ghost body = s@.skip(start as int);
    assert(body =~= (if s@.len() > 0 && (s@[0] == '-' || s@[0] == '+') {
        s@.drop_first()
    } else {
        s@
    }));
    if start == n {
        return None;
    }
    let mut acc: u64 = 0;
    let mut i: usize = start;
    while i < n
        invariant
            start <= i <= n == s@.len(),
            body == s@.skip(start as int),
            body == (if s@.len() > 0 && (s@[0] == '-' || s@[0] == '+') {
                s@.drop_first()
            } else {
                s@
            }),
            all_decimal(s@.subrange(start as int, i as int)),
            acc == decimal_value(s@.subrange(start as int, i as int)),
            acc <= I32_MAGNITUDE_LIMIT,
        decreases n - i,
    {
        let c = s[i];
        if !('0' <= c && c <= '9') {
            assert(body[i - start] == c);
            return None;
        }
        let digit = (c as u32 - '0' as u32) as u64;
        assert(digit <= 9);
        let ghost prefix = s@.subrange(start as int, i + 1);
        assert(prefix.drop_last() =~= s@.subrange(start as int, i as int));
        assert(prefix.last() == c);
        acc = acc * 10 + digit;
        i = i + 1;
        assert(all_decimal(s@.subrange(start as int, i as int))) by {
            assert forall|k: int| 0 <= k < prefix.len() implies is_decimal_digit(
                #[trigger] prefix[k],
            ) by {
                if k < prefix.len() - 1 {
                    assert(prefix[k] == s@.subrange(start as int, i - 1)[k]);
                }
            }
        }
        if acc > I32_MAGNITUDE_LIMIT {
            proof {
                if all_decimal(body) {
                    assert(body.take(i - start) =~= s@.subrange(start as int, i as int));
                    lemma_decimal_prefix_le(body, i - start);
                }
            }
            return None;
        }
    }
    assert(s@.subrange(start as int, n as int) =~= body);
    if neg {
        let v: i64 = 0 - (acc as i64);
        Some(v as i32)
    } else {
        if acc > 2147483647 {
            None
        } else {
            Some(acc as i32)
        }
    }
}

/// The value of a hexadecimal digit.
pub open spec fn hex_digit(c: char) -> int {
    if '0' <= c <= '9' {
        c as int - '0' as int
    } else if 'a' <= c <= 'f' {
        c as int - 'a' as int + 10
    } else {
        c as int - 'A' as int + 10
    }
}

/// `c` is one of `0` to `9`, `a` to `f`, `A` to `F`.
pub open spec fn is_hex_digit(c: char) -> bool {
    ('0' <= c <= '9') || ('a' <= c <= 'f') || ('A' <= c <= 'F')
}

/// Every character of `s` is a hexadecimal digit.
pub open spec fn all_hex(s: Seq<char>) -> bool {
    forall|i: int| 0 <= i < s.len() ==> is_hex_digit(#[trigger] s[i])
}

/// The number that the hexadecimal digits of `s` write.
pub open spec fn hex_value(s: Seq<char>) -> int
    decreases s.len(),
{
    if s.len() == 0 {
        0
    } else {
        hex_value(s.drop_last()) * 16 + hex_digit(s.last())
    }
}

/// The `u8` that `s` writes as `u8::from_str_radix(s, 16)` reads it: an
/// optional `+`, then one or more hexadecimal digits, the value at most 255.
pub open spec fn parse_hex_u8_spec(s: Seq<char>) -> Option<u8> {
    let body = if s.len() > 0 && s[0] == '+' {
        s.drop_first()
    } else {
        s
    };
    if body.len() == 0 || !all_hex(body) {
        None
    } else if hex_value(body) <= 255 {
        Some(hex_value(body) as u8)
    } else {
        None
    }
}

proof fn lemma_hex_prefix_le(s: Seq<char>, k: int)
    requires
        all_hex(s),
        0 <= k <= s.len(),
    ensures
        0 <= hex_value(s.take(k)) <= hex_value(s),
    decreases s.len(),
{
    if k == s.len() {
        assert(s.take(k) =~= s);
    }
    if s.len() > 0 {
        let d = s.drop_last();
        assert(all_hex(d)) by {
            assert forall|i: int| 0 <= i < d.len() implies is_hex_digit(#[trigger] d[i]) by {
                assert(d[i] == s[i]);
            }
        }
        assert(is_hex_digit(s[s.len() - 1]));
        if k < s.len() {
            lemma_hex_prefix_le(d, k);
            assert(d.take(k) =~= s.take(k));
        } else {
            lemma_hex_prefix_le(d, d.len() as int);
            assert(d.take(d.len() as int) =~= d);
        }
    }
}

/// The hexadecimal number in `s`, as `u8::from_str_radix(s, 16)` reads it.
pub fn parse_hex_u8(s: &[char]) -> (r: Option<u8>)
    ensures
        r == parse_hex_u8_spec(s@),
{
    let n = s.len();
    let start: usize = if n > 0 && s[0] == '+' {
        1
    } else {
        0
    };
    let ghost body = s@.skip(start as int);
    assert(body =~= (if s@.len() > 0 && s@[0] == '+' {
        s@.drop_first()
    } else {
        s@
    }));
    if start == n {
        return None;
    }
    let mut acc: u32 = 0;
    let mut i: usize = start;
    while i < n
        invariant
            start <= i <= n == s@.len(),
            body == s@.skip(start as int),
            body == (if s@.len() > 0 && s@[0] == '+' {
                s@.drop_first()
            } else {
                s@
            }),
            all_hex(s@.subrange(start as int, i as int)),
            acc == hex_value(s@.subrange(start as int, i as int)),
            acc <= 255,
        decreases n - i,
    {
        let c = s[i];
        let digit: u32 = if '0' <= c && c <= '9' {
            c as u32 - '0' as u32
        } else if 'a' <= c && c <= 'f' {
            c as u32 - 'a' as u32 + 10
        } else if 'A' <= c && c <= 'F' {
            c as u32 - 'A' as u32 + 10
        } else {
            assert(body[i - start] == c);
            return None;
        };
        let ghost prefix = s@.subrange(start as int, i + 1);
        assert(prefix.drop_last() =~= s@.subrange(start as int, i as int));
        assert(prefix.last() == c);
        acc = acc * 16 + digit;
        i = i + 1;
        assert(all_hex(s@.subrange(start as int, i as int))) by {
            assert forall|k: int| 0 <= k < prefix.len() implies is_hex_digit(#[trigger] prefix[k]) by {
                if k < prefix.len() - 1 {
                    assert(prefix[k] == s@.subrange(start as int, i - 1)[k]);
                }
            }
        }
        if acc > 255 {
            proof {
                if all_hex(body) {
                    assert(body.take(i - start) =~= s@.subrange(start as int, i as int));
                    lemma_hex_prefix_le(body, i - start);
                }
            }
            return None;
        }
    }
    assert(s@.subrange(start as int, n as int) =~= body);
    Some(acc as u8)
}

/// What a typed line gives a number prompt.
#[derive(Debug, Clone, Copy, PartialEq, Eq, Structural)]
pub enum NumberEntry {
    /// Nothing but whitespace was typed: the default applies.
    Empty,
    /// A number within the bounds was typed.
    Accepted(i32),
    /// Something else was typed: the default applies.
    Invalid,
}

/// What the line `line` gives a prompt for a number between `min` and `max`.
pub open spec fn number_entry_spec(line: Seq<char>, min: i32, max: i32) -> NumberEntry {
    let t = trim(line);
    if t.len() == 0 {
        NumberEntry::Empty
    } else {
        match parse_i32_spec(t) {
            Some(v) => if min <= v && v <= max {
                NumberEntry::Accepted(v)
            } else {
                NumberEntry::Invalid
            },
            None => NumberEntry::Invalid,
        }
    }
}

/// Reads a typed line as an answer to a prompt for a number between `min` and `max`.
pub fn number_entry(line: &[char], min: i32, max: i32) -> (r: NumberEntry)
    ensures
        r == number_entry_spec(line@, min, max),
{
    let t = trim_whitespace(line);
    if t.len() == 0 {
        return NumberEntry::Empty;
    }
    match parse_i32(t.as_slice()) {
        Some(v) => if min <= v && v <= max {
            NumberEntry::Accepted(v)
        } else {
            NumberEntry::Invalid
        },
        None => NumberEntry::Invalid,
    }
}

/// What a typed line gives a hexadecimal byte prompt.
#[derive(Debug, Clone, Copy, PartialEq, Eq, Structural)]
pub enum HexEntry {
    /// Nothing but whitespace was typed: the default applies.
    Empty,
    /// A byte was typed.
    Accepted(u8),
    /// Something else was typed: the default applies.
    Invalid,
}

/// What the line `line` gives a hexadecimal byte prompt: leading `0x`, then
/// leading `0X`, prefixes are dropped, repeatedly, before the digits are read.
pub open spec fn hex_entry_spec(line: Seq<char>) -> HexEntry {
    let t = trim(line);
    if t.len() == 0 {
        HexEntry::Empty
    } else {
        match parse_hex_u8_spec(trim_start_matches(trim_start_matches(t, seq!['0', 'x']), seq!['0', 'X'])) {
            Some(v) => HexEntry::Accepted(v),
            None => HexEntry::Invalid,
        }
    }
}

/// Reads a typed line as an answer to a hexadecimal byte prompt.
pub fn hex_entry(line: &[char]) -> (r: HexEntry)
    ensures
        r == hex_entry_spec(line@),
{
    let t = trim_whitespace(line);
    if t.len() == 0 {
        return HexEntry::Empty;
    }
    let u = trim_start_pair(t.as_slice(), '0', 'x');
    let w = trim_start_pair(u.as_slice(), '0', 'X');
    match parse_hex_u8(w.as_slice()) {
        Some(v) => HexEntry::Accepted(v),
        None => HexEntry::Invalid,
    }
}

/// The option offered first when a node's port is chosen, to leave the node out.
pub open spec fn skip_option() -> Seq<char> {
    "None (Skip this node)"@
}

/// The options offered when a node's port is chosen: leaving the node out,
/// then each port, in order.
pub fn node_port_options(port_names: &[String]) -> (options: Vec<String>)
    ensures
        options@.len() == port_names@.len() + 1,
        options@[0]@ == skip_option(),
        forall|i: int| 0 <= i < port_names@.len() ==> #[trigger] options@[i + 1]@ == port_names@[i]@,
{
    broadcast use vstd::string::to_string_from_display_ensures_for_str;

    let mut options: Vec<String> = Vec::new();
    options.push("None (Skip this node)".to_string());
    let mut i: usize = 0;
    while i < port_names.len()
        invariant
            i <= port_names@.len(),
            options@.len() == i + 1,
            options@[0]@ == skip_option(),
            forall|k: int| 0 <= k < i ==> #[trigger] options@[k + 1]@ == port_names@[k]@,
        decreases port_names@.len() - i,
    {
        options.push(port_names[i].clone());
        i = i + 1;
    }
    options
}

/// The chosen option is the one that leaves the node out.
pub fn is_skip_option(selection: &String) -> (skip: bool)
    ensures
        skip == (selection@ == skip_option()),
{
    broadcast use vstd::string::to_string_from_display_ensures_for_str;

    let skip = "None (Skip this node)".to_string();
    *selection == skip
}

/// A key pressed at an interactive prompt.
#[derive(Debug, Clone, Copy, PartialEq, Eq, Structural)]
pub enum Key {
    Up,
    Down,
    Left,
    Right,
    PageUp,
    PageDown,
    Home,
    End,
    Enter,
    Esc,
    /// A character key; `ctrl` tells whether Control was held.
    Char { c: char, ctrl: bool },
    Other,
}

/// What a key does to a list selection.
#[derive(Debug, Clone, Copy, PartialEq, Eq, Structural)]
pub enum ListStep {
    /// The selection is now at this index; keep going.
    Moved(usize),
    /// The option at this index is chosen.
    Chosen(usize),
    /// The user cancelled (Esc or `q`).
    Cancelled,
    /// The user pressed Control-C.
    Interrupted,
}

/// What `key` does when option `selected` of `len` options is highlighted:
/// Up and Down move, wrapping around at either end.
pub open spec fn list_step_spec(selected: usize, len: usize, key: Key) -> ListStep {
    match key {
        Key::Up => if selected > 0 {
            ListStep::Moved((selected - 1) as usize)
        } else {
            ListStep::Moved((len - 1) as usize)
        },
        Key::Down => if selected < len - 1 {
            ListStep::Moved((selected + 1) as usize)
        } else {
            ListStep::Moved(0)
        },
        Key::Enter => ListStep::Chosen(selected),
        Key::Esc => ListStep::Cancelled,
        Key::Char { c, ctrl } => if c == 'q' {
            ListStep::Cancelled
        } else if c == 'c' && ctrl {
            ListStep::Interrupted
        } else {
            ListStep::Moved(selected)
        },
        _ => ListStep::Moved(selected),
    }
}

/// Applies a key to a list selection. With no option at all, Up, Down and
/// Enter have no meaning (there is nothing to move to or choose).
pub fn list_select_step(selected: usize, len: usize, key: Key) -> (r: ListStep)
    requires
        len > 0 ==> selected < len,
        len == 0 ==> selected == 0 && !(key is Up || key is Down || key is Enter),
    ensures
        r == list_step_spec(selected, len, key),
        r matches ListStep::Moved(i) ==> (len > 0 ==> i < len),
        r matches ListStep::Chosen(i) ==> i < len,
{
    match key {
        Key::Up => if selected > 0 {
            ListStep::Moved(selected - 1)
        } else {
            ListStep::Moved(len - 1)
        },
        Key::Down => if selected < len - 1 {
            ListStep::Moved(selected + 1)
        } else {
            ListStep::Moved(0)
        },
        Key::Enter => ListStep::Chosen(selected),
        Key::Esc => ListStep::Cancelled,
        Key::Char { c, ctrl } => if c == 'q' {
            ListStep::Cancelled
        } else if c == 'c' && ctrl {
            ListStep::Interrupted
        } else {
            ListStep::Moved(selected)
        },
        _ => ListStep::Moved(selected),
    }
}

/// What a key does to a number being chosen.
#[derive(Debug, Clone, Copy, PartialEq, Eq, Structural)]
pub enum NumberStep {
    /// The number is now this; keep going.
    Editing(i32),
    /// This number is chosen.
    Confirmed(i32),
    /// The user pressed Control-C.
    Interrupted,
}

/// The smaller of two numbers.
pub open spec fn min_i32(a: int, b: int) -> int {
    if a <= b {
        a
    } else {
        b
    }
}

/// The larger of two numbers.
pub open spec fn max_i32(a: int, b: int) -> int {
    if a >= b {
        a
    } else {
        b
    }
}

/// The key's arithmetic on `value` stays within `i32`.
pub open spec fn number_key_fits(value: i32, key: Key) -> bool {
    match key {
        Key::Up => value + 1 <= i32::MAX,
        Key::Down => value - 1 >= i32::MIN,
        Key::Left => value - 10 >= i32::MIN,
        Key::Right => value + 10 <= i32::MAX,
        Key::PageUp => value + 100 <= i32::MAX,
        Key::PageDown => value - 100 >= i32::MIN,
        _ => true,
    }
}

/// What `key` does to `value`: Up/Down by 1, Right/Left by 10, PageUp/PageDown
/// by 100, each capped at `max` going up and at `min` going down; Home and End
/// jump to the bounds; Enter confirms; Esc confirms the default.
pub open spec fn number_step_spec(value: i32, min: i32, max: i32, default: i32, key: Key) -> NumberStep {
    match key {
        Key::Up => NumberStep::Editing(min_i32(value + 1, max as int) as i32),
        Key::Down => NumberStep::Editing(max_i32(value - 1, min as int) as i32),
        Key::Left => NumberStep::Editing(max_i32(value - 10, min as int) as i32),
        Key::Right => NumberStep::Editing(min_i32(value + 10, max as int) as i32),
        Key::PageUp => NumberStep::Editing(min_i32(value + 100, max as int) as i32),
        Key::PageDown => NumberStep::Editing(max_i32(value - 100, min as int) as i32),
        Key::Home => NumberStep::Editing(min),
        Key::End => NumberStep::Editing(max),
        Key::Enter => NumberStep::Confirmed(value),
        Key::Esc => NumberStep::Confirmed(default),
        Key::Char { c, ctrl } => if c == 'c' && ctrl {
            NumberStep::Interrupted
        } else {
            NumberStep::Editing(value)
        },
        Key::Other => NumberStep::Editing(value),
    }
}

/// The arrow and page keys move the number by 1, 10 and 100 without passing
/// the bounds: going down it becomes `value - k`, or `min` when that is below
/// `min`; going up it becomes `value + k`, or `max` when that is above `max`.
/// Home and End jump to `min` and `max`, Enter confirms the number and Esc
/// the default.
pub proof fn lemma_number_keys(value: i32, min: i32, max: i32, default: i32)
    ensures
        value - 1 >= i32::MIN ==> number_step_spec(value, min, max, default, Key::Down)
            == NumberStep::Editing(
            if value - 1 >= min {
                (value - 1) as i32
            } else {
                min
            },
        ),
        value - 10 >= i32::MIN ==> number_step_spec(value, min, max, default, Key::Left)
            == NumberStep::Editing(
            if value - 10 >= min {
                (value - 10) as i32
            } else {
                min
            },
        ),
        value - 100 >= i32::MIN ==> number_step_spec(value, min, max, default, Key::PageDown)
            == NumberStep::Editing(
            if value - 100 >= min {
                (value - 100) as i32
            } else {
                min
            },
        ),
        value + 1 <= i32::MAX ==> number_step_spec(value, min, max, default, Key::Up)
            == NumberStep::Editing(
            if value + 1 <= max {
                (value + 1) as i32
            } else {
                max
            },
        ),
        value + 10 <= i32::MAX ==> number_step_spec(value, min, max, default, Key::Right)
            == NumberStep::Editing(
            if value + 10 <= max {
                (value + 10) as i32
            } else {
                max
            },
        ),
        value + 100 <= i32::MAX ==> number_step_spec(value, min, max, default, Key::PageUp)
            == NumberStep::Editing(
            if value + 100 <= max {
                (value + 100) as i32
            } else {
                max
            },
        ),
        number_step_spec(value, min, max, default, Key::Home) == NumberStep::Editing(min),
        number_step_spec(value, min, max, default, Key::End) == NumberStep::Editing(max),
        number_step_spec(value, min, max, default, Key::Enter) == NumberStep::Confirmed(value),
        number_step_spec(value, min, max, default, Key::Esc) == NumberStep::Confirmed(default),
{
}

fn min_of(a: i32, b: i32) -> (r: i32)
    ensures
        r == min_i32(a as int, b as int),
{
    if a <= b {
        a
    } else {
        b
    }
}

fn max_of(a: i32, b: i32) -> (r: i32)
    ensures
        r == max_i32(a as int, b as int),
{
    if a >= b {
        a
    } else {
        b
    }
}

/// Applies a key to a number being chosen between `min` and `max`.
pub fn number_select_step(value: i32, min: i32, max: i32, default: i32, key: Key) -> (r: NumberStep)
    requires
        number_key_fits(value, key),
    ensures
        r == number_step_spec(value, min, max, default, key),
{
    match key {
        Key::Up => NumberStep::Editing(min_of(value + 1, max)),
        Key::Down => NumberStep::Editing(max_of(value - 1, min)),
        Key::Left => NumberStep::Editing(max_of(value - 10, min)),
        Key::Right => NumberStep::Editing(min_of(value + 10, max)),
        Key::PageUp => NumberStep::Editing(min_of(value + 100, max)),
        Key::PageDown => NumberStep::Editing(max_of(value - 100, min)),
        Key::Home => NumberStep::Editing(min),
        Key::End => NumberStep::Editing(max),
        Key::Enter => NumberStep::Confirmed(value),
        Key::Esc => NumberStep::Confirmed(default),
        Key::Char { c, ctrl } => if c == 'c' && ctrl {
            NumberStep::Interrupted
        } else {
            NumberStep::Editing(value)
        },
        Key::Other => NumberStep::Editing(value),
    }
}

} // verus!
