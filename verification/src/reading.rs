//! What reading a configuration text guarantees: a configuration that is
//! read is a valid one, and of two lines for one setting the later wins.
use vstd::prelude::*;
use crate::config::{
    apply_line, apply_lines, config_check, default_config, line_entry,
    parse_ini_spec, MouseConfig, KEY_ACTIVE_DPI, KEY_ANGLE_SNAP, KEY_DEEP_SLEEP_TIME, KEY_DPIS,
    KEY_KEY_RESPONSE_TIME, KEY_POLLING_RATE, KEY_RIPPLE_CONTROL, KEY_SLEEP_TIME,
};
use crate::error::ErrorView;
use crate::roundtrip::{lemma_lines_empty, lemma_lines_step};
use crate::scan::{index_of, lemma_index_of};

verus! {

/// A configuration that reads is valid, and one whose lines all read but
/// that is not valid is refused with the complaint that `validate` makes.
pub proof fn lemma_read_config_is_valid(text: Seq<char>)
    ensures
        parse_ini_spec(text) matches Ok(c) ==> config_check(c) is None,
        apply_lines(text, 1, default_config()) matches Ok(c) ==> (config_check(c) matches Some(e)
            ==> parse_ini_spec(text) == Err::<MouseConfig, ErrorView>(e)),
{
}

/// The lines of `ls`, each followed by a line break.
pub open spec fn joined_lines(ls: Seq<Seq<char>>) -> Seq<char>
    decreases ls.len(),
{
    if ls.len() == 0 {
        Seq::<char>::empty()
    } else {
        (ls[0] + "\n"@) + joined_lines(ls.drop_first())
    }
}

/// A line holds no line break.
pub open spec fn single_line(line: Seq<char>) -> bool {
    forall|i: int| 0 <= i < line.len() ==> #[trigger] line[i] != '\n'
}

/// The key that a line sets, if it has one.
pub open spec fn line_key(line: Seq<char>) -> Option<Seq<char>> {
    match line_entry(line) {
        Some((k, _)) => Some(k),
        None => None,
    }
}

/// The first line of a text.
pub open spec fn first_line(u: Seq<char>) -> Seq<char> {
    u.take(index_of(u, '\n') as int)
}

/// The settings apart from the one that `k` names (all of them when `k`
/// names none).
pub open spec fn without_key(c: MouseConfig, k: Seq<char>) -> MouseConfig {
    let d = default_config();
    if k == KEY_POLLING_RATE@ {
        MouseConfig { polling_rate: d.polling_rate, ..c }
    } else if k == KEY_SLEEP_TIME@ {
        MouseConfig { sleep_time_ms: d.sleep_time_ms, ..c }
    } else if k == KEY_DEEP_SLEEP_TIME@ {
        MouseConfig { deep_sleep_time: d.deep_sleep_time, ..c }
    } else if k == KEY_KEY_RESPONSE_TIME@ {
        MouseConfig { key_response_time: d.key_response_time, ..c }
    } else if k == KEY_ACTIVE_DPI@ {
        MouseConfig { active_dpi: d.active_dpi, ..c }
    } else if k == KEY_DPIS@ {
        MouseConfig { dpis: d.dpis, ..c }
    } else if k == KEY_RIPPLE_CONTROL@ {
        MouseConfig { ripple_control: d.ripple_control, ..c }
    } else if k == KEY_ANGLE_SNAP@ {
        MouseConfig { angle_snap: d.angle_snap, ..c }
    } else {
        c
    }
}

/// Whether a line reads does not depend on its number, nor what it gives.
proof fn lemma_line_number_free(c: MouseConfig, line: Seq<char>, n: nat, m: nat)
    requires
        apply_line(c, line, n) is Ok,
    ensures
        apply_line(c, line, m) == apply_line(c, line, n),
{
}

/// A line for the key `k` changes no setting but the one `k` names.
proof fn lemma_key_line_sets_only(c: MouseConfig, line: Seq<char>, n: nat, k: Seq<char>)
    requires
        line_key(line) == Some(k),
        apply_line(c, line, n) is Ok,
    ensures
        without_key(apply_line(c, line, n)->Ok_0, k) == without_key(c, k),
{
}

/// A line for another key reads alike on configurations that differ only
/// in the setting `k` names, and keeps them so.
proof fn lemma_other_line(c: MouseConfig, d: MouseConfig, k: Seq<char>, line: Seq<char>, n: nat, m: nat)
    requires
        without_key(c, k) == without_key(d, k),
        line_key(line) != Some(k),
        apply_line(c, line, n) is Ok,
    ensures
        apply_line(d, line, m) is Ok,
        without_key(apply_line(c, line, n)->Ok_0, k) == without_key(apply_line(d, line, m)->Ok_0, k),
{
}

/// A line for the key `k` gives the same configuration from two that differ
/// only in the setting `k` names.
proof fn lemma_same_line(c: MouseConfig, d: MouseConfig, k: Seq<char>, line: Seq<char>, n: nat, m: nat)
    requires
        without_key(c, k) == without_key(d, k),
        line_key(line) == Some(k),
        apply_line(c, line, n) is Ok,
    ensures
        apply_line(d, line, m) == apply_line(c, line, n),
{
}

/// Reading lines that each end in a line break, then more text, reads the
/// lines, then the text from the next line number on.
proof fn lemma_joined_then(ls: Seq<Seq<char>>, rest: Seq<char>, n: nat, c: MouseConfig)
    requires
        forall|i: int| 0 <= i < ls.len() ==> single_line(#[trigger] ls[i]),
    ensures
        apply_lines(joined_lines(ls) + rest, n, c) == match apply_lines(joined_lines(ls), n, c) {
            Err(e) => Err(e),
            Ok(c2) => apply_lines(rest, n + ls.len(), c2),
        },
    decreases ls.len(),
{
    if ls.len() == 0 {
        lemma_lines_empty(n, c);
        assert(joined_lines(ls) + rest =~= rest);
    } else {
        let tail = ls.drop_first();
        assert forall|i: int| 0 <= i < tail.len() implies single_line(#[trigger] tail[i]) by {
            assert(tail[i] == ls[i + 1]);
        }
        assert(single_line(ls[0]));
        assert(joined_lines(ls) + rest =~= (ls[0] + "\n"@) + (joined_lines(tail) + rest));
        lemma_lines_step(ls[0], joined_lines(tail) + rest, n, c);
        lemma_lines_step(ls[0], joined_lines(tail), n, c);
        match apply_line(c, ls[0], n) {
            Err(_) => {},
            Ok(c2) => {
                lemma_joined_then(tail, rest, n + 1, c2);
            },
        }
    }
}

/// Whether a text reads does not depend on the number of its first line,
/// nor what it gives.
proof fn lemma_lines_number_free(u: Seq<char>, n: nat, m: nat, c: MouseConfig)
    requires
        apply_lines(u, n, c) is Ok,
    ensures
        apply_lines(u, m, c) == apply_lines(u, n, c),
    decreases u.len(),
{
    let k = index_of(u, '\n');
    lemma_index_of(u, '\n');
    lemma_line_number_free(c, u.take(k as int), n, m);
    if k < u.len() {
        let c2 = apply_line(c, u.take(k as int), n)->Ok_0;
        lemma_lines_number_free(u.skip(k + 1 as int), n + 1, m + 1, c2);
    }
}

/// Lines for keys other than `k` read alike on configurations that differ
/// only in the setting `k` names, and keep them so.
proof fn lemma_other_lines(
    t: Seq<Seq<char>>,
    n: nat,
    m: nat,
    c: MouseConfig,
    d: MouseConfig,
    k: Seq<char>,
)
    requires
        forall|i: int| 0 <= i < t.len() ==> single_line(#[trigger] t[i]),
        forall|i: int| 0 <= i < t.len() ==> line_key(#[trigger] t[i]) != Some(k),
        without_key(c, k) == without_key(d, k),
        apply_lines(joined_lines(t), n, c) is Ok,
    ensures
        apply_lines(joined_lines(t), m, d) is Ok,
        without_key(apply_lines(joined_lines(t), n, c)->Ok_0, k) == without_key(
            apply_lines(joined_lines(t), m, d)->Ok_0,
            k,
        ),
    decreases t.len(),
{
    if t.len() == 0 {
        lemma_lines_empty(n, c);
        lemma_lines_empty(m, d);
    } else {
        let tail = t.drop_first();
        assert forall|i: int| 0 <= i < tail.len() implies single_line(#[trigger] tail[i])
            && line_key(tail[i]) != Some(k) by {
            assert(tail[i] == t[i + 1]);
        }
        assert(single_line(t[0]));
        assert(line_key(t[0]) != Some(k));
        lemma_lines_step(t[0], joined_lines(tail), n, c);
        lemma_lines_step(t[0], joined_lines(tail), m, d);
        lemma_other_line(c, d, k, t[0], n, m);
        let c2 = apply_line(c, t[0], n)->Ok_0;
        let d2 = apply_line(d, t[0], m)->Ok_0;
        lemma_other_lines(tail, n + 1, m + 1, c2, d2, k);
    }
}

/// Of two lines for one setting, the later wins: reading a text with a
/// line `l1` for a key, then lines `t` for other keys, then text `u` whose
/// first line is for the same key, gives what the text without `l1` gives,
/// whenever every line reads.
pub proof fn lemma_later_setting_wins(
    s: Seq<Seq<char>>,
    l1: Seq<char>,
    t: Seq<Seq<char>>,
    u: Seq<char>,
)
    requires
        forall|i: int| 0 <= i < s.len() ==> single_line(#[trigger] s[i]),
        forall|i: int| 0 <= i < t.len() ==> single_line(#[trigger] t[i]),
        single_line(l1),
        line_key(l1) is Some,
        forall|i: int| 0 <= i < t.len() ==> line_key(#[trigger] t[i]) != line_key(l1),
        line_key(first_line(u)) == line_key(l1),
        apply_lines(
            joined_lines(s) + ((l1 + "\n"@) + (joined_lines(t) + u)),
            1,
            default_config(),
        ) is Ok,
    ensures
        parse_ini_spec(joined_lines(s) + ((l1 + "\n"@) + (joined_lines(t) + u))) == parse_ini_spec(
            joined_lines(s) + (joined_lines(t) + u),
        ),
{
    let k = line_key(l1)->0;
    let long_rest = (l1 + "\n"@) + (joined_lines(t) + u);
    let short_rest = joined_lines(t) + u;
    lemma_joined_then(s, long_rest, 1, default_config());
    lemma_joined_then(s, short_rest, 1, default_config());
    let cs = apply_lines(joined_lines(s), 1, default_config())->Ok_0;
    let n1 = 1 + s.len();
    lemma_lines_step(l1, short_rest, n1, cs);
    let c1 = apply_line(cs, l1, n1)->Ok_0;
    lemma_key_line_sets_only(cs, l1, n1, k);
    lemma_joined_then(t, u, n1 + 1, c1);
    lemma_joined_then(t, u, n1, cs);
    lemma_other_lines(t, n1 + 1, n1, c1, cs, k);
    let ct = apply_lines(joined_lines(t), n1 + 1, c1)->Ok_0;
    let dt = apply_lines(joined_lines(t), n1, cs)->Ok_0;
    let nl = n1 + 1 + t.len();
    let ns = n1 + t.len();
    // The first line of `u` gives the same configuration from both.
    let j = index_of(u, '\n');
    lemma_index_of(u, '\n');
    lemma_same_line(ct, dt, k, first_line(u), nl, ns);
    if j < u.len() {
        let x = apply_line(ct, first_line(u), nl)->Ok_0;
        lemma_lines_number_free(u.skip(j + 1 as int), nl + 1, ns + 1, x);
    }
    assert(apply_lines(u, ns, dt) == apply_lines(u, nl, ct));
}

} // verus!
