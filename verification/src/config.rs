//! The settings kept between runs: the click interval and the hotkey,
//! each in a small text file of the configuration directory.

use vstd::prelude::*;
use vstd::relations::{sorted_by, total_ordering};
use vstd::string::*;

use crate::hotkey::strictly_ascending;
use crate::text::{
    decimal, decimal_string, join, lemma_decimal, lemma_parse_decimal, lemma_trim_digits,
    parse_decimal, parse_unsigned, trim, trimmed,
};

verus! {

/// File, in the configuration directory, that holds the click interval.
pub const INTERVAL_FILE: &'static str = "autoclicker_ms.conf";

/// File, in the configuration directory, that holds the hotkey.
pub const HOTKEY_FILE: &'static str = "autoclicker_hotkey.conf";

/// The interval used when none is saved or the saved one is unusable.
pub const DEFAULT_INTERVAL_MS: u64 = 15;

/// The smallest interval that a saved setting may hold.
pub const MIN_SAVED_INTERVAL_MS: u64 = 1;

/// The largest interval that a saved setting may hold.
pub const MAX_SAVED_INTERVAL_MS: u64 = 60000;

/// The configuration directory: `$XDG_CONFIG_HOME` when it is set, else
/// `$HOME/.config`, else `/tmp/.config`.
pub open spec fn config_dir_text(xdg_config_home: Option<Seq<char>>, home: Option<Seq<char>>) -> Seq<char> {
    match xdg_config_home {
        Some(dir) => dir,
        None => match home {
            Some(h) => h + "/.config"@,
            None => "/tmp/.config"@,
        },
    }
}

/// The configuration directory, from the values of `XDG_CONFIG_HOME` and
/// `HOME` in the environment (`None` where a variable is unset).
pub fn config_dir_path(xdg_config_home: Option<String>, home: Option<String>) -> (dir: String)
    ensures
        dir@ == config_dir_text(
            match xdg_config_home { Some(s) => Some(s@), None => None },
            match home { Some(s) => Some(s@), None => None },
        ),
{
    match xdg_config_home {
        Some(dir) => dir,
        None => match home {
            Some(h) => h.concat("/.config"),
            None => String::from_str("/tmp/.config"),
        },
    }
}

/// The interval that the text of the interval file stands for: the
/// trimmed text read as a `u64`, if that succeeds and lies within
/// `1..=60000`, else the default of 15.
pub open spec fn interval_setting(text: Seq<char>) -> u64 {
    match parse_unsigned(trimmed(text), 0xffff_ffff_ffff_ffff) {
        Some(v) => if 1 <= v <= 60000 {
            v as u64
        } else {
            15
        },
        None => 15,
    }
}

/// The interval to start with, from the contents of the interval file
/// (`None` when it could not be read).
pub fn parse_interval_config(contents: Option<&str>) -> (ms: u64)
    ensures
        ms == match contents {
            Some(s) => interval_setting(s@),
            None => 15,
        },
{
    match contents {
        None => DEFAULT_INTERVAL_MS,
        Some(text) => {
            let t = trim(text);
            match parse_decimal(t, 0xffff_ffff_ffff_ffff) {
                Some(v) => {
                    if MIN_SAVED_INTERVAL_MS <= v && v <= MAX_SAVED_INTERVAL_MS {
                        v
                    } else {
                        DEFAULT_INTERVAL_MS
                    }
                },
                None => DEFAULT_INTERVAL_MS,
            }
        },
    }
}

/// The text that the interval file holds for the interval `ms`.
pub fn interval_config_text(ms: u64) -> (text: String)
    ensures
        text@ == decimal(ms as nat),
{
    decimal_string(ms)
}

/// Splitting state after reading `s`: the pieces already closed by a
/// comma, and the piece still open.
pub open spec fn split_state(s: Seq<char>) -> (Seq<Seq<char>>, Seq<char>)
    decreases s.len(),
{
    if s.len() == 0 {
        (Seq::empty(), Seq::empty())
    } else {
        let (done, cur) = split_state(s.drop_last());
        if s.last() == ',' {
            (done.push(cur), Seq::empty())
        } else {
            (done, cur.push(s.last()))
        }
    }
}

/// The pieces of `s` between commas (one piece when there is no comma).
pub open spec fn comma_pieces(s: Seq<char>) -> Seq<Seq<char>> {
    split_state(s).0.push(split_state(s).1)
}

/// The key code that one piece of the hotkey file stands for, if any:
/// the trimmed piece read as a `u16`.
pub open spec fn piece_code(piece: Seq<char>) -> Option<u16> {
    match parse_unsigned(trimmed(piece), 65535) {
        Some(v) => Some(v as u16),
        None => None,
    }
}

/// The key codes that `pieces` stand for, in order; pieces that are no
/// key code are skipped.
pub open spec fn codes_of_pieces(pieces: Seq<Seq<char>>) -> Seq<u16>
    decreases pieces.len(),
{
    if pieces.len() == 0 {
        Seq::empty()
    } else {
        match piece_code(pieces.last()) {
            Some(c) => codes_of_pieces(pieces.drop_last()).push(c),
            None => codes_of_pieces(pieces.drop_last()),
        }
    }
}

/// The key codes of the hotkey file, in file order; pieces that are no
/// key code are skipped.
pub open spec fn config_codes(text: Seq<char>) -> Seq<u16> {
    codes_of_pieces(comma_pieces(text))
}

/// The order in which key codes are kept: ascending.
pub open spec fn code_leq() -> spec_fn(u16, u16) -> bool {
    |a: u16, b: u16| a <= b
}

/// `codes` in ascending order.
pub open spec fn sorted_codes(codes: Seq<u16>) -> Seq<u16> {
    codes.sort_by(code_leq())
}

/// The hotkey that the hotkey file's text stands for: its key codes in
/// ascending order.
pub open spec fn hotkey_setting(text: Seq<char>) -> Seq<u16> {
    sorted_codes(config_codes(text))
}

/// The text that the hotkey file holds for `combo`: the decimal codes,
/// separated by commas.
pub open spec fn hotkey_text(combo: Seq<u16>) -> Seq<char> {
    join(combo.map_values(|c: u16| decimal(c as nat)), ","@)
}

pub proof fn lemma_code_leq_total()
    ensures
        total_ordering(code_leq()),
{
}

/// Reading text that holds no comma continues the open piece.
proof fn lemma_split_state_extend(a: Seq<char>, b: Seq<char>)
    requires
        forall|i: int| 0 <= i < b.len() ==> b[i] != ',',
    ensures
        split_state(a + b) == (split_state(a).0, split_state(a).1 + b),
    decreases b.len(),
{
    if b.len() == 0 {
        assert(a + b =~= a);
        assert(split_state(a).1 + b =~= split_state(a).1);
    } else {
        let b0 = b.drop_last();
        lemma_split_state_extend(a, b0);
        assert((a + b).drop_last() =~= a + b0);
        assert((a + b).last() == b.last());
        assert(split_state(a).1 + b0 + seq![b.last()] =~= split_state(a).1 + b);
        assert((split_state(a).1 + b0).push(b.last()) =~= split_state(a).1 + b);
    }
}

proof fn lemma_split_state_comma(a: Seq<char>)
    ensures
        split_state(a.push(',')) == (split_state(a).0.push(split_state(a).1), Seq::<char>::empty()),
{
    assert(a.push(',').drop_last() =~= a);
}

/// The pieces of a comma-separated join are the joined texts, when none
/// of them holds a comma.
proof fn lemma_pieces_of_join(parts: Seq<Seq<char>>)
    requires
        parts.len() > 0,
        forall|i: int, j: int| 0 <= i < parts.len() && 0 <= j < parts[i].len() ==> #[trigger] parts[i][j] != ',',
    ensures
        comma_pieces(join(parts, ","@)) == parts,
    decreases parts.len(),
{
    reveal_strlit(",");
    if parts.len() == 1 {
        lemma_split_state_extend(Seq::empty(), parts[0]);
        assert(Seq::<char>::empty() + parts[0] =~= parts[0]);
        assert(split_state(Seq::<char>::empty()) == (Seq::<Seq<char>>::empty(), Seq::<char>::empty()));
        assert(comma_pieces(parts[0]) =~= seq![parts[0]]);
        assert(parts =~= seq![parts[0]]);
    } else {
        let front = parts.drop_last();
        let last = parts.last();
        assert forall|i: int, j: int| 0 <= i < front.len() && 0 <= j < front[i].len() implies #[trigger] front[i][j] != ',' by {
            assert(front[i] == parts[i]);
        }
        lemma_pieces_of_join(front);
        let head = join(front, ","@);
        assert(join(parts, ","@) == head + ","@ + last);
        assert(head + ","@ =~= head.push(','));
        lemma_split_state_comma(head);
        assert forall|j: int| 0 <= j < last.len() implies last[j] != ',' by {
            assert(last == parts[parts.len() - 1]);
        }
        lemma_split_state_extend(head.push(','), last);
        assert(split_state(head).0.push(split_state(head).1) == front);
        assert(Seq::<char>::empty() + last =~= last);
        assert(comma_pieces(join(parts, ","@)) =~= front.push(last));
        assert(front.push(last) =~= parts);
    }
}

/// Each decimal rendering reads back as its code.
proof fn lemma_codes_of_decimals(combo: Seq<u16>)
    ensures
        codes_of_pieces(combo.map_values(|c: u16| decimal(c as nat))) == combo,
    decreases combo.len(),
{
    let texts = combo.map_values(|c: u16| decimal(c as nat));
    if combo.len() > 0 {
        let front = combo.drop_last();
        lemma_codes_of_decimals(front);
        assert(texts.drop_last() =~= front.map_values(|c: u16| decimal(c as nat)));
        let c = combo.last();
        lemma_decimal(c as nat);
        lemma_trim_digits(decimal(c as nat));
        lemma_parse_decimal(c as nat, 65535);
        assert(texts.last() == decimal(c as nat));
        assert(piece_code(texts.last()) == Some(c));
        assert(combo =~= front.push(c));
    } else {
        assert(texts =~= Seq::<Seq<char>>::empty());
    }
}

/// Saving a hotkey and reading the file back gives the hotkey's key codes
/// in ascending order.
pub proof fn lemma_hotkey_round_trip(combo: Seq<u16>)
    ensures
        config_codes(hotkey_text(combo)) == combo,
        hotkey_setting(hotkey_text(combo)) == sorted_codes(combo),
{
    let texts = combo.map_values(|c: u16| decimal(c as nat));
    lemma_codes_of_decimals(combo);
    if combo.len() > 0 {
        assert forall|i: int, j: int| 0 <= i < texts.len() && 0 <= j < texts[i].len() implies #[trigger] texts[i][j] != ',' by {
            lemma_decimal(combo[i] as nat);
            assert(crate::text::is_digit(texts[i][j]));
        }
        lemma_pieces_of_join(texts);
    } else {
        assert(texts =~= Seq::<Seq<char>>::empty());
        assert(hotkey_text(combo) =~= Seq::<char>::empty());
        assert(split_state(Seq::<char>::empty()) == (Seq::<Seq<char>>::empty(), Seq::<char>::empty()));
        let pieces = comma_pieces(hotkey_text(combo));
        assert(pieces =~= seq![Seq::<char>::empty()]);
        assert(trimmed(Seq::<char>::empty()) =~= Seq::<char>::empty());
        assert(piece_code(Seq::<char>::empty()) is None);
        assert(pieces.drop_last() =~= Seq::<Seq<char>>::empty());
    }
}

/// A combination in ascending order without repeats, as the key tracker
/// reports them, reads back from the hotkey file unchanged.
pub proof fn lemma_ascending_hotkey_round_trip(combo: Seq<u16>)
    requires
        strictly_ascending(combo),
    ensures
        hotkey_setting(hotkey_text(combo)) == combo,
{
    lemma_hotkey_round_trip(combo);
    lemma_code_leq_total();
    combo.lemma_sort_by_ensures(code_leq());
    assert(sorted_by(combo, code_leq()));
    vstd::seq_lib::lemma_sorted_unique(combo, sorted_codes(combo), code_leq());
}

/// Saving an interval and reading the file back gives the interval, when
/// it lies within `1..=60000`, and the default of 15 otherwise.
pub proof fn lemma_interval_round_trip(ms: u64)
    ensures
        interval_setting(decimal(ms as nat)) == if 1 <= ms <= 60000 {
            ms
        } else {
            15
        },
{
    lemma_decimal(ms as nat);
    lemma_trim_digits(decimal(ms as nat));
    lemma_parse_decimal(ms as nat, 0xffff_ffff_ffff_ffff);
}


/// Whether `codes` is in ascending order.
pub open spec fn ascending(codes: Seq<u16>) -> bool {
    forall|i: int, j: int| 0 <= i < j < codes.len() ==> codes[i] <= codes[j]
}

proof fn lemma_multiset_insert(s: Seq<u16>, p: int, x: u16)
    requires
        0 <= p <= s.len(),
    ensures
        s.insert(p, x).to_multiset() =~= s.to_multiset().insert(x),
{
    broadcast use vstd::seq_lib::group_to_multiset_ensures;
    assert(s.insert(p, x).remove(p) =~= s);
    assert(s.insert(p, x)[p] == x);
    assert(s.insert(p, x).to_multiset().count(x) > 0);
    assert(s.to_multiset() =~= s.insert(p, x).to_multiset().remove(x));
}

/// `codes` in ascending order, as `codes.sort()` leaves them.
pub fn sort_codes(codes: &Vec<u16>) -> (sorted: Vec<u16>)
    ensures
        sorted@ == sorted_codes(codes@),
{
    let mut out: Vec<u16> = Vec::new();
    let mut i: usize = 0;
    assert(codes@.take(0) =~= out@);
    while i < codes.len()
        invariant
            i <= codes.len(),
            ascending(out@),
            out@.to_multiset() == codes@.take(i as int).to_multiset(),
        decreases codes.len() - i,
    {
        let x = codes[i];
        let mut p: usize = 0;
        while p < out.len() && out[p] <= x
            invariant
                p <= out.len(),
                forall|j: int| 0 <= j < p ==> out@[j] <= x,
            decreases out.len() - p,
        {
            p = p + 1;
        }
        let ghost before = out@;
        proof {
            lemma_multiset_insert(before, p as int, x);
            broadcast use vstd::seq_lib::group_to_multiset_ensures;
            assert(codes@.take(i + 1) =~= codes@.take(i as int).push(x));
        }
        out.insert(p, x);
        assert forall|a: int, b: int| 0 <= a < b < out@.len() implies out@[a] <= out@[b] by {
            if b < p {
            } else if b == p {
            } else if a < p {
                assert(out@[b] == before[b - 1]);
                if p < before.len() {
                    assert(before[p as int] > x);
                    assert(before[p as int] <= before[b - 1]);
                }
            } else if a == p {
                assert(out@[b] == before[b - 1]);
                assert(before[p as int] > x);
                assert(before[p as int] <= before[b - 1]);
            } else {
                assert(out@[a] == before[a - 1]);
                assert(out@[b] == before[b - 1]);
            }
        }
        i = i + 1;
    }
    proof {
        assert(codes@.take(codes.len() as int) =~= codes@);
        lemma_code_leq_total();
        codes@.lemma_sort_by_ensures(code_leq());
        assert(sorted_by(out@, code_leq()));
        vstd::seq_lib::lemma_sorted_unique(out@, sorted_codes(codes@), code_leq());
    }
    out
}

/// The hotkey to start with, from the contents of the hotkey file (`None`
/// when it could not be read): its key codes in ascending order.
pub fn parse_hotkey_config(contents: Option<&str>) -> (combo: Vec<u16>)
    ensures
        combo@ == match contents {
            Some(s) => hotkey_setting(s@),
            None => Seq::<u16>::empty(),
        },
{
    let text = match contents {
        None => {
            return Vec::new();
        },
        Some(t) => t,
    };
    let n = text.unicode_len();
    let mut codes: Vec<u16> = Vec::new();
    let mut start: usize = 0;
    let mut i: usize = 0;
    assert(text@.take(0) =~= Seq::<char>::empty());
    while i < n
        invariant
            n == text@.len(),
            start <= i <= n,
            codes_of_pieces(split_state(text@.take(i as int)).0) == codes@,
            split_state(text@.take(i as int)).1 == text@.subrange(start as int, i as int),
        decreases n - i,
    {
        let c = text.get_char(i);
        let ghost prev = split_state(text@.take(i as int));
        assert(text@.take(i + 1).drop_last() =~= text@.take(i as int));
        assert(text@.take(i + 1).last() == c);
        if c == ',' {
            let piece = text.substring_char(start, i);
            let ghost done = prev.0.push(prev.1);
            assert(done.drop_last() =~= prev.0);
            match parse_decimal(trim(piece), 65535) {
                Some(v) => {
                    codes.push(v as u16);
                },
                None => {},
            }
            start = i + 1;
            assert(text@.subrange(start as int, (i + 1) as int) =~= Seq::<char>::empty());
        } else {
            assert(text@.subrange(start as int, (i + 1) as int) =~= text@.subrange(start as int, i as int).push(c));
        }
        i = i + 1;
    }
    let piece = text.substring_char(start, n);
    let ghost last_state = split_state(text@.take(n as int));
    assert(text@.take(n as int) =~= text@);
    assert(comma_pieces(text@).drop_last() =~= last_state.0);
    match parse_decimal(trim(piece), 65535) {
        Some(v) => {
            codes.push(v as u16);
        },
        None => {},
    }
    sort_codes(&codes)
}

/// The text that the hotkey file holds for `combo`: its decimal codes,
/// separated by commas.
pub fn hotkey_config_text(combo: &Vec<u16>) -> (text: String)
    ensures
        text@ == hotkey_text(combo@),
{
    let ghost parts = combo@.map_values(|c: u16| decimal(c as nat));
    let mut text = String::new();
    let mut i: usize = 0;
    while i < combo.len()
        invariant
            i <= combo.len(),
            parts == combo@.map_values(|c: u16| decimal(c as nat)),
            text@ == join(parts.take(i as int), ","@),
        decreases combo.len() - i,
    {
        let part = decimal_string(combo[i] as u64);
        proof {
            assert(parts.take(i + 1).drop_last() =~= parts.take(i as int));
            assert(parts.take(i + 1).last() == decimal(combo@[i as int] as nat));
            if i == 0 {
                assert(parts.take(0) =~= Seq::<Seq<char>>::empty());
            }
        }
        if i > 0 {
            text.append(",");
        }
        text.append(part.as_str());
        i = i + 1;
    }
    assert(parts.take(combo.len() as int) =~= parts);
    text
}

} // verus!
