//! The wire protocol: one discrete message each way per connection.
//!
//! Messages are strings of characters; the transport carries their UTF-8
//! bytes. Variable-length fields are framed by a fixed-width decimal
//! character count, so every well-formed message decodes to exactly the
//! value it was encoded from.

use vstd::prelude::*;

use crate::commands::{snapshot_views, SnapshotEntry, SnapshotEntryView};
use crate::dispatch::{CommandPayload, PayloadView, TopLevelCommand};

verus! {

/// Fields longer than this many characters cannot be framed.
pub const MAX_FIELD_LEN: usize = 100000000;

/// The decimal digit for a value below ten.
pub open spec fn digit_char(d: nat) -> char {
    if d == 0 {
        '0'
    } else if d == 1 {
        '1'
    } else if d == 2 {
        '2'
    } else if d == 3 {
        '3'
    } else if d == 4 {
        '4'
    } else if d == 5 {
        '5'
    } else if d == 6 {
        '6'
    } else if d == 7 {
        '7'
    } else if d == 8 {
        '8'
    } else {
        '9'
    }
}

/// The value of a decimal digit, or ten for any other character.
pub open spec fn digit_val(c: char) -> nat {
    if c == '0' {
        0
    } else if c == '1' {
        1
    } else if c == '2' {
        2
    } else if c == '3' {
        3
    } else if c == '4' {
        4
    } else if c == '5' {
        5
    } else if c == '6' {
        6
    } else if c == '7' {
        7
    } else if c == '8' {
        8
    } else if c == '9' {
        9
    } else {
        10
    }
}

pub open spec fn is_digit(c: char) -> bool {
    digit_val(c) < 10
}

pub open spec fn all_digits(s: Seq<char>) -> bool {
    forall|i: int| 0 <= i < s.len() ==> is_digit(#[trigger] s[i])
}

/// Ten to the `w`.
pub open spec fn pow10(w: nat) -> nat
    decreases w,
{
    if w == 0 {
        1
    } else {
        10 * pow10((w - 1) as nat)
    }
}

/// `n` written in exactly `w` decimal digits, most significant first.
pub open spec fn spec_digits(w: nat, n: nat) -> Seq<char>
    decreases w,
{
    if w == 0 {
        Seq::<char>::empty()
    } else {
        spec_digits((w - 1) as nat, n / 10).push(digit_char(n % 10))
    }
}

/// The value of a digit string, most significant first.
pub open spec fn dec_val(s: Seq<char>) -> nat
    decreases s.len(),
{
    if s.len() == 0 {
        0
    } else {
        dec_val(s.drop_last()) * 10 + digit_val(s.last())
    }
}

pub proof fn lemma_digits_len(w: nat, n: nat)
    ensures
        spec_digits(w, n).len() == w,
        all_digits(spec_digits(w, n)),
    decreases w,
{
    if w > 0 {
        lemma_digits_len((w - 1) as nat, n / 10);
        let prefix = spec_digits((w - 1) as nat, n / 10);
        let whole = prefix.push(digit_char(n % 10));
        assert(is_digit(digit_char(n % 10)));
        assert forall|i: int| 0 <= i < whole.len() implies is_digit(whole[i]) by {
            if i < prefix.len() {
                assert(whole[i] == prefix[i]);
            }
        }
    }
}

/// Writing `n < 10^w` in `w` digits and reading it back gives `n`.
pub proof fn lemma_digits_round_trip(w: nat, n: nat)
    requires
        n < pow10(w),
    ensures
        dec_val(spec_digits(w, n)) == n,
    decreases w,
{
    if w == 0 {
    } else {
        let prefix = spec_digits((w - 1) as nat, n / 10);
        let whole = prefix.push(digit_char(n % 10));
        assert(whole.drop_last() =~= prefix);
        assert(whole.last() == digit_char(n % 10));
        assert(n / 10 < pow10((w - 1) as nat)) by {
            assert(10 * (n / 10) <= n);
        }
        lemma_digits_round_trip((w - 1) as nat, n / 10);
        assert(digit_val(digit_char(n % 10)) == n % 10);
        assert(dec_val(whole) == (n / 10) * 10 + n % 10);
    }
}

/// The powers of ten up to the width of a length field.
pub proof fn lemma_pow10_8()
    ensures
        pow10(8) == 100000000,
        forall|k: nat| k <= 8 ==> pow10(k) <= 100000000,
{
    assert(pow10(0) == 1);
    assert(pow10(1) == 10);
    assert(pow10(2) == 100);
    assert(pow10(3) == 1000);
    assert(pow10(4) == 10000);
    assert(pow10(5) == 100000);
    assert(pow10(6) == 1000000);
    assert(pow10(7) == 10000000);
    assert(pow10(8) == 100000000);
    assert forall|k: nat| k <= 8 implies pow10(k) <= 100000000 by {
        if k == 0 {
        } else if k == 1 {
        } else if k == 2 {
        } else if k == 3 {
        } else if k == 4 {
        } else if k == 5 {
        } else if k == 6 {
        } else if k == 7 {
        } else {
        }
    }
}

/// The one-character string of a decimal digit.
fn digit_str(d: usize) -> (r: &'static str)
    requires
        d < 10,
    ensures
        r@ =~= seq![digit_char(d as nat)],
{
    let r: &'static str = match d {
        0 => "0",
        1 => "1",
        2 => "2",
        3 => "3",
        4 => "4",
        5 => "5",
        6 => "6",
        7 => "7",
        8 => "8",
        _ => "9",
    };
    proof {
        reveal_strlit("0");
        reveal_strlit("1");
        reveal_strlit("2");
        reveal_strlit("3");
        reveal_strlit("4");
        reveal_strlit("5");
        reveal_strlit("6");
        reveal_strlit("7");
        reveal_strlit("8");
        reveal_strlit("9");
    }
    r
}

/// `n` written in exactly `w` decimal digits.
fn encode_digits(w: usize, n: usize) -> (s: String)
    ensures
        s@ == spec_digits(w as nat, n as nat),
    decreases w,
{
    if w == 0 {
        let s = String::new();
        proof {
            assert(s@ =~= spec_digits(0, n as nat));
        }
        s
    } else {
        let mut s = encode_digits(w - 1, n / 10);
        s.append(digit_str(n % 10));
        proof {
            assert(s@ =~= spec_digits(w as nat, n as nat));
        }
        s
    }
}

/// The value of the decimal digit `c`, if it is one.
pub fn digit_of(c: char) -> (r: Option<usize>)
    ensures
        match r {
            Some(d) => digit_val(c) == d && d < 10,
            None => digit_val(c) == 10,
        },
{
    match c {
        '0' => Some(0),
        '1' => Some(1),
        '2' => Some(2),
        '3' => Some(3),
        '4' => Some(4),
        '5' => Some(5),
        '6' => Some(6),
        '7' => Some(7),
        '8' => Some(8),
        '9' => Some(9),
        _ => None,
    }
}

/// Reads the eight-digit length field at `pos`: its value when all eight
/// characters are digits, nothing otherwise.
fn parse_len8(s: &str, pos: usize) -> (r: Option<usize>)
    requires
        pos + 8 <= s@.len(),
        s@.len() <= usize::MAX,
    ensures
        ({
            let field = s@.subrange(pos as int, pos + 8);
            match r {
                Some(l) => all_digits(field) && l == dec_val(field) && l < 100000000,
                None => !all_digits(field),
            }
        }),
{
    let ghost field = s@.subrange(pos as int, pos + 8);
    let mut acc: usize = 0;
    let mut k: usize = 0;
    while k < 8
        invariant
            pos + 8 <= s@.len(),
            s@.len() <= usize::MAX,
            0 <= k <= 8,
            field == s@.subrange(pos as int, pos + 8),
            all_digits(field.subrange(0, k as int)),
            acc == dec_val(field.subrange(0, k as int)),
            acc < pow10(k as nat),
        decreases 8 - k,
    {
        proof {
            lemma_pow10_8();
        }
        let c = s.get_char(pos + k);
        proof {
            assert(field[k as int] == s@[pos + k]);
        }
        let d = match digit_of(c) {
            Some(d) => d,
            None => {
                return None;
            },
        };
        proof {
            let sub1 = field.subrange(0, k + 1);
            assert(sub1.drop_last() =~= field.subrange(0, k as int));
            assert(sub1.last() == field[k as int]);
            assert(forall|i: int| 0 <= i < k ==> sub1[i] == field.subrange(0, k as int)[i]);
            assert(pow10((k + 1) as nat) == 10 * pow10(k as nat));
        }
        acc = acc * 10 + d;
        k = k + 1;
        proof {
            assert(all_digits(field.subrange(0, k as int))) by {
                let subk = field.subrange(0, k as int);
                assert(forall|i: int|
                    0 <= i < k - 1 ==> subk[i] == field.subrange(0, k as int - 1)[i]);
                assert(subk[k - 1] == field[k - 1]);
            }
        }
    }
    proof {
        assert(field.subrange(0, 8) =~= field);
        assert(pow10(8) == 100000000) by {
            assert(pow10(0) == 1);
            assert(pow10(1) == 10);
            assert(pow10(2) == 100);
            assert(pow10(3) == 1000);
            assert(pow10(4) == 10000);
            assert(pow10(5) == 100000);
            assert(pow10(6) == 1000000);
            assert(pow10(7) == 10000000);
        }
    }
    Some(acc)
}

/// The tag character of an action.
pub open spec fn tag_of(a: TopLevelCommand) -> char {
    match a {
        TopLevelCommand::Toggle => 'T',
        TopLevelCommand::Show => 'S',
        TopLevelCommand::Hide => 'H',
        TopLevelCommand::Quit => 'Q',
        TopLevelCommand::Command => 'C',
        TopLevelCommand::Pipe => 'P',
    }
}

/// The action of a tag character, if it is one.
pub open spec fn tag_action(c: char) -> Option<TopLevelCommand> {
    if c == 'T' {
        Some(TopLevelCommand::Toggle)
    } else if c == 'S' {
        Some(TopLevelCommand::Show)
    } else if c == 'H' {
        Some(TopLevelCommand::Hide)
    } else if c == 'Q' {
        Some(TopLevelCommand::Quit)
    } else if c == 'C' {
        Some(TopLevelCommand::Command)
    } else if c == 'P' {
        Some(TopLevelCommand::Pipe)
    } else {
        None
    }
}

/// A request on the wire: the action's tag, then `-` for no command name or
/// `+` and the framed name.
pub open spec fn spec_encode_payload(p: PayloadView) -> Seq<char> {
    match p.command {
        None => seq![tag_of(p.action), '-'],
        Some(c) => seq![tag_of(p.action), '+'] + spec_digits(8, c.len()) + c,
    }
}

/// What a wire string decodes to: the unique payload it encodes, if any.
pub open spec fn spec_decode_payload(s: Seq<char>) -> Option<PayloadView> {
    if s.len() < 2 {
        None
    } else {
        match tag_action(s[0]) {
            None => None,
            Some(a) => {
                if s[1] == '-' {
                    if s.len() == 2 {
                        Some(PayloadView { action: a, command: None })
                    } else {
                        None
                    }
                } else if s[1] == '+' {
                    if s.len() < 10 {
                        None
                    } else {
                        let field = s.subrange(2, 10);
                        if all_digits(field) && dec_val(field) == s.len() - 10 {
                            Some(
                                PayloadView {
                                    action: a,
                                    command: Some(s.subrange(10, s.len() as int)),
                                },
                            )
                        } else {
                            None
                        }
                    }
                } else {
                    None
                }
            },
        }
    }
}

/// Decoding what was encoded gives back exactly the request.
pub proof fn lemma_payload_round_trip(p: PayloadView)
    requires
        p.command matches Some(c) ==> c.len() < 100000000,
    ensures
        spec_decode_payload(spec_encode_payload(p)) == Some(p),
{
    assert(pow10(8) == 100000000) by {
        assert(pow10(0) == 1);
        assert(pow10(1) == 10);
        assert(pow10(2) == 100);
        assert(pow10(3) == 1000);
        assert(pow10(4) == 10000);
        assert(pow10(5) == 100000);
        assert(pow10(6) == 1000000);
        assert(pow10(7) == 10000000);
    }
    let s = spec_encode_payload(p);
    assert(tag_action(tag_of(p.action)) == Some(p.action));
    match p.command {
        None => {
            assert(s.len() == 2);
            assert(s[0] == tag_of(p.action));
            assert(s[1] == '-');
        },
        Some(c) => {
            let digits = spec_digits(8, c.len());
            lemma_digits_len(8, c.len());
            lemma_digits_round_trip(8, c.len());
            assert(s.len() == 10 + c.len());
            assert(s[0] == tag_of(p.action));
            assert(s[1] == '+');
            assert(s[1] != '-');
            assert(s.subrange(2, 10) =~= digits);
            assert(s.subrange(10, s.len() as int) =~= c);
        },
    }
}

/// The tag string of an action.
fn action_str(a: TopLevelCommand) -> (r: &'static str)
    ensures
        r@ =~= seq![tag_of(a)],
{
    let r: &'static str = match a {
        TopLevelCommand::Toggle => "T",
        TopLevelCommand::Show => "S",
        TopLevelCommand::Hide => "H",
        TopLevelCommand::Quit => "Q",
        TopLevelCommand::Command => "C",
        TopLevelCommand::Pipe => "P",
    };
    proof {
        reveal_strlit("T");
        reveal_strlit("S");
        reveal_strlit("H");
        reveal_strlit("Q");
        reveal_strlit("C");
        reveal_strlit("P");
    }
    r
}

/// Writes a request for the wire.
pub fn encode_payload(p: &CommandPayload) -> (s: String)
    ensures
        s@ == spec_encode_payload(p@),
{
    let mut s = String::from_str(action_str(p.action));
    match &p.command {
        None => {
            s.append("-");
            proof {
                reveal_strlit("-");
                assert(s@ =~= spec_encode_payload(p@));
            }
        },
        Some(c) => {
            s.append("+");
            let lens = encode_digits(8, c.as_str().unicode_len());
            s.append(lens.as_str());
            s.append(c.as_str());
            proof {
                reveal_strlit("+");
                assert(s@ =~= spec_encode_payload(p@));
            }
        },
    }
    s
}

/// Writes a request, refusing a command name too long to frame. `None`
/// comes exactly of an oversized name.
pub fn encode_payload_checked(p: &CommandPayload) -> (r: Option<String>)
    ensures
        match r {
            Some(s) => s@ == spec_encode_payload(p@) && (p@.command matches Some(c) ==> c.len()
                < 100000000),
            None => p@.command matches Some(c) && c.len() >= 100000000,
        },
{
    match &p.command {
        Some(c) => {
            if c.as_str().unicode_len() >= MAX_FIELD_LEN {
                return None;
            }
        },
        None => {},
    }
    Some(encode_payload(p))
}

/// Reads a request off the wire: exactly the payload the string encodes,
/// nothing on any other string.
pub fn decode_payload(s: &str) -> (r: Option<CommandPayload>)
    ensures
        match r {
            Some(p) => spec_decode_payload(s@) == Some(p@),
            None => spec_decode_payload(s@) is None,
        },
{
    let n = s.unicode_len();
    if n < 2 {
        return None;
    }
    let c0 = s.get_char(0);
    let action = match c0 {
        'T' => TopLevelCommand::Toggle,
        'S' => TopLevelCommand::Show,
        'H' => TopLevelCommand::Hide,
        'Q' => TopLevelCommand::Quit,
        'C' => TopLevelCommand::Command,
        'P' => TopLevelCommand::Pipe,
        _ => {
            return None;
        },
    };
    let c1 = s.get_char(1);
    if c1 == '-' {
        if n == 2 {
            Some(CommandPayload { action, command: None })
        } else {
            None
        }
    } else if c1 == '+' {
        if n < 10 {
            return None;
        }
        let l = match parse_len8(s, 2) {
            Some(l) => l,
            None => {
                return None;
            },
        };
        if l != n - 10 {
            return None;
        }
        let body = s.substring_char(10, n);
        Some(CommandPayload { action, command: Some(String::from_str(body)) })
    } else {
        None
    }
}

/// A framed string: its character count in eight digits, then its
/// characters.
pub open spec fn spec_frame(s: Seq<char>) -> Seq<char> {
    spec_digits(8, s.len()) + s
}

/// One snapshot entry on the wire: its three fields, each framed.
pub open spec fn spec_encode_entry(e: SnapshotEntryView) -> Seq<char> {
    spec_frame(e.id) + spec_frame(e.title) + spec_frame(e.subtitle)
}

/// The entries of a snapshot on the wire, in order.
pub open spec fn entries_cat(es: Seq<SnapshotEntryView>) -> Seq<char>
    decreases es.len(),
{
    if es.len() == 0 {
        Seq::<char>::empty()
    } else {
        spec_encode_entry(es[0]) + entries_cat(es.drop_first())
    }
}

/// A registry snapshot on the wire: the entry count in eight digits, then
/// each entry.
pub open spec fn spec_encode_snapshot(es: Seq<SnapshotEntryView>) -> Seq<char> {
    spec_digits(8, es.len()) + entries_cat(es)
}

/// An entry whose fields all fit their frames.
pub open spec fn entry_wf(e: SnapshotEntryView) -> bool {
    &&& e.id.len() < 100000000
    &&& e.title.len() < 100000000
    &&& e.subtitle.len() < 100000000
}

/// A snapshot that fits the wire format.
pub open spec fn snapshot_wf(es: Seq<SnapshotEntryView>) -> bool {
    &&& es.len() < 100000000
    &&& forall|i: int| 0 <= i < es.len() ==> entry_wf(#[trigger] es[i])
}

/// Reads one framed string at `pos`: the string and the position after it.
pub open spec fn spec_parse_frame(s: Seq<char>, pos: int) -> Option<(Seq<char>, int)> {
    if pos < 0 || pos + 8 > s.len() {
        None
    } else {
        let field = s.subrange(pos, pos + 8);
        if !all_digits(field) {
            None
        } else {
            let l = dec_val(field) as int;
            if pos + 8 + l > s.len() {
                None
            } else {
                Some((s.subrange(pos + 8, pos + 8 + l), pos + 8 + l))
            }
        }
    }
}

/// Reads `k` entries of three frames each, starting at `pos`.
pub open spec fn spec_parse_entries(s: Seq<char>, pos: int, k: nat) -> Option<
    (Seq<SnapshotEntryView>, int),
>
    decreases k,
{
    if k == 0 {
        Some((Seq::<SnapshotEntryView>::empty(), pos))
    } else {
        match spec_parse_frame(s, pos) {
            None => None,
            Some((id, p1)) => match spec_parse_frame(s, p1) {
                None => None,
                Some((title, p2)) => match spec_parse_frame(s, p2) {
                    None => None,
                    Some((subtitle, p3)) => match spec_parse_entries(s, p3, (k - 1) as nat) {
                        None => None,
                        Some((rest, pend)) => Some(
                            (seq![SnapshotEntryView { id, title, subtitle }] + rest, pend),
                        ),
                    },
                },
            },
        }
    }
}

/// What a wire string decodes to: the unique snapshot it encodes, if any.
pub open spec fn spec_decode_snapshot(s: Seq<char>) -> Option<Seq<SnapshotEntryView>> {
    if s.len() < 8 {
        None
    } else {
        let field = s.subrange(0, 8);
        if !all_digits(field) {
            None
        } else {
            match spec_parse_entries(s, 8, dec_val(field)) {
                None => None,
                Some((es, pend)) => if pend == s.len() {
                    Some(es)
                } else {
                    None
                },
            }
        }
    }
}

/// A wider subrange equal to `cat` makes every inner subrange equal to the
/// matching subrange of `cat`.
proof fn lemma_subrange_within(s: Seq<char>, pos: int, cat: Seq<char>, a: int, b: int)
    requires
        0 <= pos,
        pos + cat.len() <= s.len(),
        s.subrange(pos, pos + cat.len()) == cat,
        0 <= a <= b <= cat.len(),
    ensures
        s.subrange(pos + a, pos + b) == cat.subrange(a, b),
{
    assert forall|i: int| 0 <= i < b - a implies s.subrange(pos + a, pos + b)[i] == cat.subrange(
        a,
        b,
    )[i] by {
        assert(s.subrange(pos, pos + cat.len())[a + i] == cat[a + i]);
    }
    assert(s.subrange(pos + a, pos + b) =~= cat.subrange(a, b));
}

/// A frame read back off its own encoding gives the framed string.
proof fn lemma_parse_frame_of_encoding(s: Seq<char>, pos: int, x: Seq<char>)
    requires
        0 <= pos,
        pos + 8 + x.len() <= s.len(),
        x.len() < 100000000,
        s.subrange(pos, pos + 8 + x.len()) == spec_frame(x),
    ensures
        spec_parse_frame(s, pos) == Some((x, pos + 8 + x.len())),
{
    lemma_pow10_8();
    lemma_digits_len(8, x.len());
    lemma_digits_round_trip(8, x.len());
    let fr = spec_frame(x);
    lemma_subrange_within(s, pos, fr, 0, 8);
    assert(fr.subrange(0, 8) =~= spec_digits(8, x.len()));
    lemma_subrange_within(s, pos, fr, 8, fr.len() as int);
    assert(fr.subrange(8, fr.len() as int) =~= x);
}

/// Entries read back off their own encoding give the entries.
proof fn lemma_parse_entries_of_encoding(s: Seq<char>, pos: int, es: Seq<SnapshotEntryView>)
    requires
        0 <= pos,
        pos + entries_cat(es).len() <= s.len(),
        forall|i: int| 0 <= i < es.len() ==> entry_wf(#[trigger] es[i]),
        s.subrange(pos, pos + entries_cat(es).len()) == entries_cat(es),
    ensures
        spec_parse_entries(s, pos, es.len() as nat) == Some((es, pos + entries_cat(es).len())),
    decreases es.len(),
{
    if es.len() == 0 {
        assert(es =~= Seq::<SnapshotEntryView>::empty());
    } else {
        let e = es[0];
        let rest = es.drop_first();
        let cat = entries_cat(es);
        let cat_e = spec_encode_entry(e);
        let cat_rest = entries_cat(rest);
        assert(cat == cat_e + cat_rest);
        let p1 = pos + 8 + e.id.len();
        let p2 = p1 + 8 + e.title.len();
        let p3 = p2 + 8 + e.subtitle.len();
        let f1 = spec_frame(e.id);
        let f2 = spec_frame(e.title);
        let f3 = spec_frame(e.subtitle);
        lemma_digits_len(8, e.id.len());
        lemma_digits_len(8, e.title.len());
        lemma_digits_len(8, e.subtitle.len());
        lemma_subrange_within(s, pos, cat, 0, f1.len() as int);
        assert(cat.subrange(0, f1.len() as int) =~= f1) by {
            assert forall|i: int| 0 <= i < f1.len() implies cat.subrange(0, f1.len() as int)[i]
                == f1[i] by {
                assert(cat[i] == (cat_e + cat_rest)[i]);
                assert(cat_e[i] == ((f1 + f2) + f3)[i]);
                assert((f1 + f2)[i] == f1[i]);
            }
        }
        lemma_subrange_within(s, pos, cat, f1.len() as int, (f1.len() + f2.len()) as int);
        assert(cat.subrange(f1.len() as int, (f1.len() + f2.len()) as int) =~= f2) by {
            assert forall|i: int|
                0 <= i < f2.len() implies cat.subrange(
                f1.len() as int,
                (f1.len() + f2.len()) as int,
            )[i] == f2[i] by {
                assert(cat[f1.len() + i] == (cat_e + cat_rest)[f1.len() + i]);
                assert(cat_e[f1.len() + i] == ((f1 + f2) + f3)[f1.len() + i]);
                assert((f1 + f2)[f1.len() + i] == f2[i]);
            }
        }
        lemma_subrange_within(s, pos, cat, (f1.len() + f2.len()) as int, cat_e.len() as int);
        assert(cat.subrange((f1.len() + f2.len()) as int, cat_e.len() as int) =~= f3) by {
            assert forall|i: int|
                0 <= i < f3.len() implies cat.subrange(
                (f1.len() + f2.len()) as int,
                cat_e.len() as int,
            )[i] == f3[i] by {
                assert(cat[f1.len() + f2.len() + i] == (cat_e + cat_rest)[f1.len() + f2.len() + i]);
                assert(cat_e[f1.len() + f2.len() + i] == ((f1 + f2) + f3)[f1.len() + f2.len() + i]);
            }
        }
        lemma_subrange_within(s, pos, cat, cat_e.len() as int, cat.len() as int);
        assert(cat.subrange(cat_e.len() as int, cat.len() as int) =~= cat_rest) by {
            assert forall|i: int|
                0 <= i < cat_rest.len() implies cat.subrange(
                cat_e.len() as int,
                cat.len() as int,
            )[i] == cat_rest[i] by {
                assert(cat[cat_e.len() + i] == (cat_e + cat_rest)[cat_e.len() + i]);
            }
        }
        lemma_parse_frame_of_encoding(s, pos, e.id);
        lemma_parse_frame_of_encoding(s, p1, e.title);
        lemma_parse_frame_of_encoding(s, p2, e.subtitle);
        assert(forall|i: int| 0 <= i < rest.len() ==> rest[i] == es[i + 1]);
        lemma_parse_entries_of_encoding(s, p3, rest);
        assert(SnapshotEntryView { id: e.id, title: e.title, subtitle: e.subtitle } == e);
        assert(seq![e] + rest =~= es);
    }
}

/// Decoding what was encoded gives back exactly the snapshot.
pub proof fn lemma_snapshot_round_trip(es: Seq<SnapshotEntryView>)
    requires
        snapshot_wf(es),
    ensures
        spec_decode_snapshot(spec_encode_snapshot(es)) == Some(es),
{
    let s = spec_encode_snapshot(es);
    lemma_pow10_8();
    lemma_digits_len(8, es.len());
    lemma_digits_round_trip(8, es.len());
    assert(s.subrange(0, 8) =~= spec_digits(8, es.len()));
    assert(s.subrange(8, s.len() as int) =~= entries_cat(es));
    lemma_parse_entries_of_encoding(s, 8, es);
}

/// One more entry on the wire.
proof fn lemma_entries_cat_push(es: Seq<SnapshotEntryView>, e: SnapshotEntryView)
    ensures
        entries_cat(es.push(e)) == entries_cat(es) + spec_encode_entry(e),
    decreases es.len(),
{
    if es.len() == 0 {
        assert(es.push(e)[0] == e);
        assert(es.push(e).drop_first() =~= Seq::<SnapshotEntryView>::empty());
        assert(spec_encode_entry(e) + entries_cat(Seq::<SnapshotEntryView>::empty()) =~= entries_cat(
            es,
        ) + spec_encode_entry(e));
    } else {
        assert(es.push(e)[0] == es[0]);
        assert(es.push(e).drop_first() =~= es.drop_first().push(e));
        lemma_entries_cat_push(es.drop_first(), e);
        assert((spec_encode_entry(es[0]) + (entries_cat(es.drop_first()) + spec_encode_entry(e)))
            =~= ((spec_encode_entry(es[0]) + entries_cat(es.drop_first())) + spec_encode_entry(e)));
    }
}

/// Writes a registry snapshot for the wire.
pub fn encode_snapshot(entries: &Vec<SnapshotEntry>) -> (s: String)
    ensures
        s@ == spec_encode_snapshot(snapshot_views(entries@)),
{
    let n = entries.len();
    let mut s = encode_digits(8, n);
    let ghost views = snapshot_views(entries@);
    let mut i: usize = 0;
    while i < n
        invariant
            n == entries.len(),
            0 <= i <= n,
            views == snapshot_views(entries@),
            s@ == spec_digits(8, n as nat) + entries_cat(views.take(i as int)),
        decreases n - i,
    {
        let e = &entries[i];
        s.append(encode_digits(8, e.id.as_str().unicode_len()).as_str());
        s.append(e.id.as_str());
        s.append(encode_digits(8, e.title.as_str().unicode_len()).as_str());
        s.append(e.title.as_str());
        s.append(encode_digits(8, e.subtitle.as_str().unicode_len()).as_str());
        s.append(e.subtitle.as_str());
        proof {
            assert(views[i as int] == entries@[i as int]@);
            assert(views.take(i + 1) =~= views.take(i as int).push(views[i as int]));
            lemma_entries_cat_push(views.take(i as int), views[i as int]);
            assert(s@ =~= spec_digits(8, n as nat) + entries_cat(views.take(i + 1)));
        }
        i = i + 1;
    }
    proof {
        assert(views.take(n as int) =~= views);
    }
    s
}

/// Writes a registry snapshot, refusing one with a count or a field too
/// long to frame. `None` comes exactly of an oversized snapshot.
pub fn encode_snapshot_checked(entries: &Vec<SnapshotEntry>) -> (r: Option<String>)
    ensures
        match r {
            Some(s) => s@ == spec_encode_snapshot(snapshot_views(entries@)) && snapshot_wf(
                snapshot_views(entries@),
            ),
            None => !snapshot_wf(snapshot_views(entries@)),
        },
{
    let ghost views = snapshot_views(entries@);
    let n = entries.len();
    if n >= MAX_FIELD_LEN {
        return None;
    }
    let mut i: usize = 0;
    while i < n
        invariant
            n == entries.len(),
            0 <= i <= n,
            views == snapshot_views(entries@),
            forall|j: int| 0 <= j < i ==> entry_wf(#[trigger] views[j]),
        decreases n - i,
    {
        let e = &entries[i];
        let ok = e.id.as_str().unicode_len() < MAX_FIELD_LEN && e.title.as_str().unicode_len()
            < MAX_FIELD_LEN && e.subtitle.as_str().unicode_len() < MAX_FIELD_LEN;
        if !ok {
            proof {
                assert(views[i as int] == entries@[i as int]@);
            }
            return None;
        }
        proof {
            assert(views[i as int] == entries@[i as int]@);
        }
        i = i + 1;
    }
    Some(encode_snapshot(entries))
}

/// Reads one framed string at `pos` off the wire.
fn parse_frame(s: &str, pos: usize) -> (r: Option<(String, usize)>)
    requires
        pos <= s@.len(),
        s@.len() <= usize::MAX,
    ensures
        match r {
            Some(t) => spec_parse_frame(s@, pos as int) == Some((t.0@, t.1 as int)) && pos <= t.1
                <= s@.len(),
            None => spec_parse_frame(s@, pos as int) is None,
        },
{
    let n = s.unicode_len();
    if n - pos < 8 {
        return None;
    }
    let l = match parse_len8(s, pos) {
        Some(l) => l,
        None => {
            return None;
        },
    };
    if l > n - (pos + 8) {
        return None;
    }
    let body = s.substring_char(pos + 8, pos + 8 + l);
    Some((String::from_str(body), pos + 8 + l))
}

/// Reads a registry snapshot off the wire: exactly the snapshot the string
/// encodes, nothing on any other string.
pub fn decode_snapshot(s: &str) -> (r: Option<Vec<SnapshotEntry>>)
    ensures
        match r {
            Some(es) => spec_decode_snapshot(s@) == Some(snapshot_views(es@)),
            None => spec_decode_snapshot(s@) is None,
        },
{
    let n = s.unicode_len();
    if n < 8 {
        return None;
    }
    let count = match parse_len8(s, 0) {
        Some(l) => l,
        None => {
            return None;
        },
    };
    let mut out: Vec<SnapshotEntry> = Vec::new();
    let mut pos: usize = 8;
    let mut done: usize = 0;
    proof {
        assert(snapshot_views(out@) =~= Seq::<SnapshotEntryView>::empty());
    }
    while done < count
        invariant
            n == s@.len(),
            s@.len() <= usize::MAX,
            8 <= pos <= n,
            0 <= done <= count,
            out@.len() == done,
            count == dec_val(s@.subrange(0, 8)),
            all_digits(s@.subrange(0, 8)),
            spec_parse_entries(s@, 8, count as nat) == (match spec_parse_entries(
                s@,
                pos as int,
                (count - done) as nat,
            ) {
                None => None::<(Seq<SnapshotEntryView>, int)>,
                Some((rest, pend)) => Some((snapshot_views(out@) + rest, pend)),
            }),
        decreases count - done,
    {
        let id = match parse_frame(s, pos) {
            Some(t) => t,
            None => {
                return None;
            },
        };
        let title = match parse_frame(s, id.1) {
            Some(t) => t,
            None => {
                return None;
            },
        };
        let subtitle = match parse_frame(s, title.1) {
            Some(t) => t,
            None => {
                return None;
            },
        };
        let next_pos = subtitle.1;
        let entry = SnapshotEntry { id: id.0, title: title.0, subtitle: subtitle.0 };
        proof {
            let rem = (count - done) as nat;
            let ev = entry@;
            assert(spec_parse_entries(s@, pos as int, rem) == (match spec_parse_entries(
                s@,
                next_pos as int,
                (rem - 1) as nat,
            ) {
                None => None::<(Seq<SnapshotEntryView>, int)>,
                Some((rest, pend)) => Some((seq![ev] + rest, pend)),
            }));
        }
        out.push(entry);
        pos = next_pos;
        done = done + 1;
        proof {
            match spec_parse_entries(s@, pos as int, (count - done) as nat) {
                None => {},
                Some((rest, pend)) => {
                    assert(snapshot_views(out@) =~= snapshot_views(out@.drop_last()).push(
                        out@.last()@,
                    ));
                    assert((snapshot_views(out@.drop_last()) + (seq![out@.last()@] + rest)) =~= (
                    snapshot_views(out@) + rest));
                },
            }
        }
    }
    if pos == n {
        proof {
            assert(snapshot_views(out@) + Seq::<SnapshotEntryView>::empty() =~= snapshot_views(
                out@,
            ));
        }
        Some(out)
    } else {
        None
    }
}

} // verus!
