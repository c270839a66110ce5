//! The INI configuration of the hardware settings: its values, their
//! checks, the text format read from and written to the configuration file,
//! and the feature reports that apply it.
use vstd::prelude::*;
use crate::dpi::{valid_dpi_stage, validate_dpi, validate_dpi_stage};
use crate::driver::{
    dpi_profile_payload, dpi_report, first_invalid_dpi, lemma_first_invalid_stays, polling_rate_payload, polling_rate_report,
    sleep_report, sleep_times_check, sleep_times_payload, validate_sleep_times,
};
use crate::error::{result_view, DriverError, ErrorView};
use crate::protocol::{polling_rate_from_hz, rate_from_hz, PollingRate};
use crate::scan::{
    before, before_char, chars_are, copy_range, find_char, index_of, lemma_index_of,
    parse_bool_chars, parse_bool_spec, parse_u32_chars, parse_u32_spec,
    parse_u8_chars, parse_u8_spec, seconds_millis, split_words, trim, trim_chars, words,
};
use crate::seconds::parse_seconds_millis;
use crate::text::{chars_of, decimal, push_decimal, push_seconds, seconds_text, string_from_chars};

verus! {

pub const CONFIG_FILE_NAME: &'static str = "attack-shark-r1.ini";

pub const ETC_CONFIG_PATH: &'static str = "/etc/attack-shark-r1.ini";

pub const XDG_CONFIG_ENV: &'static str = "XDG_CONFIG_HOME";

pub const HOME_ENV: &'static str = "HOME";

pub const SECTION_GENERAL: &'static str = "[general]";

pub const KEY_POLLING_RATE: &'static str = "polling_rate";

pub const KEY_SLEEP_TIME: &'static str = "sleep_time";

pub const KEY_DEEP_SLEEP_TIME: &'static str = "deep_sleep_time";

pub const KEY_KEY_RESPONSE_TIME: &'static str = "key_response_time";

pub const KEY_ACTIVE_DPI: &'static str = "active_dpi";

pub const KEY_DPIS: &'static str = "dpis";

pub const KEY_RIPPLE_CONTROL: &'static str = "ripple_control";

pub const KEY_ANGLE_SNAP: &'static str = "angle_snap";

/// Hardware settings of the mouse.
#[derive(Debug, Clone, Copy, PartialEq, Eq)]
pub struct MouseConfig {
    pub polling_rate: PollingRate,
    /// Sleep delay in milliseconds (0.5 s ..= 30 s when valid).
    pub sleep_time_ms: u32,
    /// Deep-sleep delay in minutes.
    pub deep_sleep_time: u8,
    /// Key response (debounce) time in milliseconds.
    pub key_response_time: u8,
    pub dpis: [u32; 6],
    /// Active DPI stage, 1 ..= 6.
    pub active_dpi: u8,
    pub ripple_control: bool,
    pub angle_snap: bool,
}

/// The settings used when the file names none: 1000 Hz, 6 s sleep, 12 min
/// deep sleep, 4 ms debounce, stages 800 1600 3200 4000 5000 12000, stage 3,
/// ripple control and angle snap off.
pub open spec fn default_config() -> MouseConfig {
    MouseConfig {
        polling_rate: PollingRate::Hz1000,
        sleep_time_ms: 6000,
        deep_sleep_time: 12,
        key_response_time: 4,
        dpis: [800, 1600, 3200, 4000, 5000, 12000],
        active_dpi: 3,
        ripple_control: false,
        angle_snap: false,
    }
}

impl Default for MouseConfig {
    fn default() -> (c: Self)
        ensures
            c == default_config(),
    {
        MouseConfig {
            polling_rate: PollingRate::Hz1000,
            sleep_time_ms: 6000,
            deep_sleep_time: 12,
            key_response_time: 4,
            dpis: [800, 1600, 3200, 4000, 5000, 12000],
            active_dpi: 3,
            ripple_control: false,
            angle_snap: false,
        }
    }
}

/// The first complaint about a configuration: the sleep settings, then the
/// active stage, then the DPI values in stage order.
pub open spec fn config_check(c: MouseConfig) -> Option<ErrorView> {
    match sleep_times_check(c.sleep_time_ms, c.deep_sleep_time, c.key_response_time) {
        Some(e) => Some(e),
        None => if !valid_dpi_stage(c.active_dpi) {
            Some(ErrorView::InvalidDpiStage(c.active_dpi))
        } else {
            match first_invalid_dpi(c.dpis@, 6) {
                Some(d) => Some(ErrorView::InvalidDpi(d)),
                None => None,
            }
        },
    }
}

impl MouseConfig {
    /// Checks every setting; the first complaint is returned.
    pub fn validate(&self) -> (r: Result<(), DriverError>)
        ensures
            match config_check(*self) {
                None => r is Ok,
                Some(v) => r matches Err(e) && e@ == v,
            },
    {
        match validate_sleep_times(self.sleep_time_ms, self.deep_sleep_time, self.key_response_time) {
            Err(e) => return Err(e),
            Ok(()) => {},
        }
        match validate_dpi_stage(self.active_dpi) {
            Err(e) => return Err(e),
            Ok(()) => {},
        }
        let mut i: usize = 0;
        while i < 6
            invariant
                i <= 6,
                first_invalid_dpi(self.dpis@, i as nat) is None,
                sleep_times_check(self.sleep_time_ms, self.deep_sleep_time, self.key_response_time) is None,
                valid_dpi_stage(self.active_dpi),
            decreases 6 - i,
        {
            match validate_dpi(self.dpis[i]) {
                Err(e) => {
                    proof {
                        lemma_first_invalid_stays(self.dpis@, (i + 1) as nat, 6);
                    }
                    return Err(e);
                },
                Ok(()) => {},
            }
            i = i + 1;
        }
        Ok(())
    }
}

// ---------------------------------------------------------------------
// Reading the INI text.
/// The value text after `=`: cut at the first `#`, then at the first `;`,
/// and trimmed (inline comments are dropped).
pub open spec fn strip_comment(v: Seq<char>) -> Seq<char> {
    trim(before(before(v, '#'), ';'))
}

/// The key and value of a line, if it has any. Blank lines, comments
/// (`#` or `;`), section headers (`[`) and lines without `=` have none.
pub open spec fn line_entry(line: Seq<char>) -> Option<(Seq<char>, Seq<char>)> {
    let t = trim(line);
    if t.len() == 0 || t[0] == '#' || t[0] == ';' || t[0] == '[' {
        None
    } else {
        let k = index_of(t, '=');
        if k >= t.len() {
            None
        } else {
            Some((trim(t.take(k as int)), strip_comment(trim(t.skip(k + 1 as int)))))
        }
    }
}

/// The complaint about a value that does not read: `prefix`, the value,
/// and the line number.
pub open spec fn value_error(prefix: Seq<char>, val: Seq<char>, line: nat) -> ErrorView {
    ErrorView::Config(prefix + val + "' at line "@ + decimal(line))
}

/// The numbers of the DPI words, or the first word that is not a `u32`.
pub open spec fn parse_dpi_words(ws: Seq<Seq<char>>) -> Result<Seq<u32>, Seq<char>>
    decreases ws.len(),
{
    if ws.len() == 0 {
        Ok(seq![])
    } else {
        match parse_dpi_words(ws.drop_last()) {
            Err(w) => Err(w),
            Ok(vs) => match parse_u32_spec(ws.last()) {
                Some(v) => Ok(vs.push(v)),
                None => Err(ws.last()),
            },
        }
    }
}

/// The effect of one `key = value` entry on line `line`. Unknown keys are
/// ignored.
pub open spec fn apply_entry(c: MouseConfig, key: Seq<char>, val: Seq<char>, line: nat) -> Result<
    MouseConfig,
    ErrorView,
> {
    if key == KEY_POLLING_RATE@ {
        match parse_u32_spec(val) {
            None => Err(value_error("Invalid polling rate '"@, val, line)),
            Some(hz) => match rate_from_hz(hz) {
                Some(r) => Ok(MouseConfig { polling_rate: r, ..c }),
                None => Err(ErrorView::InvalidPollingRate(hz)),
            },
        }
    } else if key == KEY_SLEEP_TIME@ {
        match seconds_millis(val) {
            None => Err(value_error("Invalid sleep_time '"@, val, line)),
            Some(ms) => Ok(MouseConfig { sleep_time_ms: ms, ..c }),
        }
    } else if key == KEY_DEEP_SLEEP_TIME@ {
        match parse_u8_spec(val) {
            None => Err(value_error("Invalid deep_sleep_time '"@, val, line)),
            Some(v) => Ok(MouseConfig { deep_sleep_time: v, ..c }),
        }
    } else if key == KEY_KEY_RESPONSE_TIME@ {
        match parse_u8_spec(val) {
            None => Err(value_error("Invalid key_response_time '"@, val, line)),
            Some(v) => Ok(MouseConfig { key_response_time: v, ..c }),
        }
    } else if key == KEY_ACTIVE_DPI@ {
        match parse_u8_spec(val) {
            None => Err(value_error("Invalid active_dpi '"@, val, line)),
            Some(v) => Ok(MouseConfig { active_dpi: v, ..c }),
        }
    } else if key == KEY_DPIS@ {
        let ws = words(val);
        if ws.len() != 6 {
            Err(
                ErrorView::Config(
                    "Expected exactly 6 DPI values in 'dpis', found "@ + decimal(ws.len())
                        + " at line "@ + decimal(line),
                ),
            )
        } else {
            match parse_dpi_words(ws) {
                Err(w) => Err(value_error("Invalid DPI number '"@, w, line)),
                Ok(vs) => Ok(MouseConfig { dpis: [vs[0], vs[1], vs[2], vs[3], vs[4], vs[5]], ..c }),
            }
        }
    } else if key == KEY_RIPPLE_CONTROL@ {
        match parse_bool_spec(val) {
            None => Err(value_error("Invalid ripple_control '"@, val, line)),
            Some(b) => Ok(MouseConfig { ripple_control: b, ..c }),
        }
    } else if key == KEY_ANGLE_SNAP@ {
        match parse_bool_spec(val) {
            None => Err(value_error("Invalid angle_snap '"@, val, line)),
            Some(b) => Ok(MouseConfig { angle_snap: b, ..c }),
        }
    } else {
        Ok(c)
    }
}

/// The effect of one line.
pub open spec fn apply_line(c: MouseConfig, line: Seq<char>, n: nat) -> Result<MouseConfig, ErrorView> {
    match line_entry(line) {
        None => Ok(c),
        Some((k, v)) => apply_entry(c, k, v, n),
    }
}

/// The effect of the lines of `rest` (split at `\n`), the first of which is
/// line `n`; the first complaint stops the reading.
pub open spec fn apply_lines(rest: Seq<char>, n: nat, c: MouseConfig) -> Result<MouseConfig, ErrorView>
    decreases rest.len(),
{
    let k = index_of(rest, '\n');
    match apply_line(c, rest.take(k as int), n) {
        Err(e) => Err(e),
        Ok(c2) => if k < rest.len() {
            apply_lines(rest.skip(k + 1 as int), n + 1, c2)
        } else {
            Ok(c2)
        },
    }
}

/// What a configuration text means: the default settings changed by its
/// lines in order, then checked.
pub open spec fn parse_ini_spec(text: Seq<char>) -> Result<MouseConfig, ErrorView> {
    match apply_lines(text, 1, default_config()) {
        Err(e) => Err(e),
        Ok(c) => match config_check(c) {
            Some(e) => Err(e),
            None => Ok(c),
        },
    }
}

/// `Config(prefix + value + "' at line " + n)`.
fn value_error_exec(prefix: &str, val: &[char], line: usize) -> (e: DriverError)
    ensures
        e@ == value_error(prefix@, val@, line as nat),
{
    let mut digits: Vec<char> = Vec::new();
    push_decimal(&mut digits, line as u64);
    assert(digits@ =~= decimal(line as nat));
    let mut s = String::from_str(prefix);
    s.append(string_from_chars(val).as_str());
    s.append("' at line ");
    s.append(string_from_chars(digits.as_slice()).as_str());
    DriverError::Config(s)
}

/// Reads the six DPI words.
fn parse_dpi_list(ws: &Vec<Vec<char>>, line: usize) -> (r: Result<[u32; 6], DriverError>)
    requires
        ws@.len() == 6,
    ensures
        match parse_dpi_words(Seq::new(6, |i: int| ws@[i]@)) {
            Err(w) => r matches Err(e) && e@ == value_error("Invalid DPI number '"@, w, line as nat),
            Ok(vs) => r matches Ok(a) && a@ == vs,
        },
{
    let ghost wv = Seq::new(6, |i: int| ws@[i]@);
    let mut vals: [u32; 6] = [0, 0, 0, 0, 0, 0];
    let mut i: usize = 0;
    assert(wv.take(0) =~= Seq::<Seq<char>>::empty());
    assert(vals@.take(0) =~= Seq::<u32>::empty());
    while i < 6
        invariant
            i <= 6,
            ws@.len() == 6,
            wv == Seq::new(6, |i: int| ws@[i]@),
            vals@.len() == 6,
            parse_dpi_words(wv.take(i as int)) == Ok::<Seq<u32>, Seq<char>>(vals@.take(i as int)),
        decreases 6 - i,
    {
        assert(wv.take(i + 1).drop_last() =~= wv.take(i as int));
        assert(wv.take(i + 1).last() == ws@[i as int]@);
        match parse_u32_chars(ws[i].as_slice()) {
            None => {
                proof {
                    lemma_dpi_words_error_stays(wv, i + 1, 6);
                    assert(wv.take(6) =~= wv);
                }
                return Err(value_error_exec("Invalid DPI number '", ws[i].as_slice(), line));
            },
            Some(v) => {
                let ghost before_vals = vals@;
                vals[i] = v;
                assert(vals@.take(i as int) =~= before_vals.take(i as int));
                assert(vals@.take(i + 1) =~= vals@.take(i as int).push(v));
            },
        }
        i = i + 1;
    }
    assert(wv.take(6) =~= wv);
    assert(vals@.take(6) =~= vals@);
    Ok(vals)
}

/// Once a word of the first `n` does not read, it stays the first that
/// does not among more words.
proof fn lemma_dpi_words_error_stays(ws: Seq<Seq<char>>, n: int, m: int)
    requires
        0 <= n <= m <= ws.len(),
        parse_dpi_words(ws.take(n)) is Err,
    ensures
        parse_dpi_words(ws.take(m)) == parse_dpi_words(ws.take(n)),
    decreases m - n,
{
    if n < m {
        lemma_dpi_words_error_stays(ws, n, m - 1);
        assert(ws.take(m).drop_last() =~= ws.take(m - 1));
    }
}

/// The effect of one `key = value` entry (see `apply_entry`).
fn apply_entry_exec(c: MouseConfig, key: &[char], val: &[char], line: usize) -> (r: Result<
    MouseConfig,
    DriverError,
>)
    ensures
        result_view(r) == apply_entry(c, key@, val@, line as nat),
{
    if chars_are(key, KEY_POLLING_RATE) {
        match parse_u32_chars(val) {
            None => Err(value_error_exec("Invalid polling rate '", val, line)),
            Some(hz) => match polling_rate_from_hz(hz) {
                Ok(r) => Ok(MouseConfig { polling_rate: r, ..c }),
                Err(e) => Err(e),
            },
        }
    } else if chars_are(key, KEY_SLEEP_TIME) {
        match parse_seconds_millis(val) {
            None => Err(value_error_exec("Invalid sleep_time '", val, line)),
            Some(ms) => Ok(MouseConfig { sleep_time_ms: ms, ..c }),
        }
    } else if chars_are(key, KEY_DEEP_SLEEP_TIME) {
        match parse_u8_chars(val) {
            None => Err(value_error_exec("Invalid deep_sleep_time '", val, line)),
            Some(v) => Ok(MouseConfig { deep_sleep_time: v, ..c }),
        }
    } else if chars_are(key, KEY_KEY_RESPONSE_TIME) {
        match parse_u8_chars(val) {
            None => Err(value_error_exec("Invalid key_response_time '", val, line)),
            Some(v) => Ok(MouseConfig { key_response_time: v, ..c }),
        }
    } else if chars_are(key, KEY_ACTIVE_DPI) {
        match parse_u8_chars(val) {
            None => Err(value_error_exec("Invalid active_dpi '", val, line)),
            Some(v) => Ok(MouseConfig { active_dpi: v, ..c }),
        }
    } else if chars_are(key, KEY_DPIS) {
        let ws = split_words(val);
        if ws.len() != 6 {
            let mut digits: Vec<char> = Vec::new();
            push_decimal(&mut digits, ws.len() as u64);
            assert(digits@ =~= decimal(ws@.len() as nat));
            let mut line_digits: Vec<char> = Vec::new();
            push_decimal(&mut line_digits, line as u64);
            assert(line_digits@ =~= decimal(line as nat));
            let mut s = String::from_str("Expected exactly 6 DPI values in 'dpis', found ");
            s.append(string_from_chars(digits.as_slice()).as_str());
            s.append(" at line ");
            s.append(string_from_chars(line_digits.as_slice()).as_str());
            Err(DriverError::Config(s))
        } else {
            proof {
                assert(Seq::new(6, |i: int| ws@[i]@) =~= words(val@));
            }
            match parse_dpi_list(&ws, line) {
                Err(e) => Err(e),
                Ok(a) => {
                    assert(a == [a@[0], a@[1], a@[2], a@[3], a@[4], a@[5]]);
                    Ok(MouseConfig { dpis: a, ..c })
                },
            }
        }
    } else if chars_are(key, KEY_RIPPLE_CONTROL) {
        match parse_bool_chars(val) {
            None => Err(value_error_exec("Invalid ripple_control '", val, line)),
            Some(b) => Ok(MouseConfig { ripple_control: b, ..c }),
        }
    } else if chars_are(key, KEY_ANGLE_SNAP) {
        match parse_bool_chars(val) {
            None => Err(value_error_exec("Invalid angle_snap '", val, line)),
            Some(b) => Ok(MouseConfig { angle_snap: b, ..c }),
        }
    } else {
        Ok(c)
    }
}

/// The effect of one line (see `apply_line`).
fn apply_line_exec(c: MouseConfig, line: &[char], n: usize) -> (r: Result<MouseConfig, DriverError>)
    ensures
        result_view(r) == apply_line(c, line@, n as nat),
{
    let t = trim_chars(line);
    if t.len() == 0 || t[0] == '#' || t[0] == ';' || t[0] == '[' {
        return Ok(c);
    }
    let k = find_char(t.as_slice(), '=');
    if k >= t.len() {
        return Ok(c);
    }
    proof {
        lemma_index_of(t@, '=');
    }
    let key_raw = copy_range(t.as_slice(), 0, k);
    let val_raw = copy_range(t.as_slice(), k + 1, t.len());
    assert(key_raw@ =~= t@.take(k as int));
    assert(val_raw@ =~= t@.skip(k + 1));
    let key = trim_chars(key_raw.as_slice());
    let v1 = trim_chars(val_raw.as_slice());
    let v2 = before_char(v1.as_slice(), '#');
    let v3 = before_char(v2.as_slice(), ';');
    let val = trim_chars(v3.as_slice());
    apply_entry_exec(c, key.as_slice(), val.as_slice(), n)
}

impl MouseConfig {
    /// Reads a configuration from the text of an INI file: the default
    /// settings, changed by each `key = value` line in order (the first
    /// complaint stops the reading), then checked with `validate`.
    pub fn parse_ini(text: &str) -> (r: Result<MouseConfig, DriverError>)
        ensures
            result_view(r) == parse_ini_spec(text@),
    {
        let chars = chars_of(text);
        let n = chars.len();
        let mut cfg = MouseConfig::default();
        let mut pos: usize = 0;
        // The number of the current line; `line` is the same number, held
        // at `usize::MAX`, which only the empty line after a final line
        // break of the longest text could pass.
        let mut line_no: usize = 1;
        let ghost mut line: nat = 1;
        assert(chars@.skip(0) =~= chars@);
        loop
            invariant
                pos <= n == chars@.len(),
                1 <= line <= pos + 1,
                pos < n ==> line_no == line,
                apply_lines(text@, 1, default_config()) == apply_lines(
                    chars@.skip(pos as int),
                    line,
                    cfg,
                ),
                chars@ == text@,
            decreases n - pos,
        {
            let ghost rest = chars@.skip(pos as int);
            let mut end = pos;
            while end < n && chars[end] != '\n'
                invariant
                    pos <= end <= n == chars@.len(),
                    forall|j: int| pos <= j < end ==> chars@[j] != '\n',
                decreases n - end,
            {
                end = end + 1;
            }
            proof {
                assert forall|j: int| 0 <= j < end - pos implies #[trigger] rest[j] != '\n' by {
                    assert(rest[j] == chars@[j + pos]);
                }
                if end < n {
                    assert(rest[end - pos] == chars@[end as int]);
                }
                crate::scan::lemma_index_of_is(rest, '\n', (end - pos) as nat);
            }
            let seg = copy_range(chars.as_slice(), pos, end);
            assert(seg@ =~= rest.take(end - pos));
            proof {
                if pos == n {
                    // The line is empty: it reads the same under any number.
                    assert(seg@ =~= Seq::<char>::empty());
                    crate::roundtrip::lemma_lines_empty(line, cfg);
                    crate::roundtrip::lemma_lines_empty(line_no as nat, cfg);
                    assert(Seq::<char>::empty().take(0) =~= Seq::<char>::empty());
                }
            }
            match apply_line_exec(cfg, seg.as_slice(), line_no) {
                Err(e) => return Err(e),
                Ok(c2) => {
                    cfg = c2;
                },
            }
            if end == n {
                let r = cfg.validate();
                return match r {
                    Err(e) => Err(e),
                    Ok(()) => Ok(cfg),
                };
            }
            assert(rest.skip(end - pos + 1) =~= chars@.skip(end + 1));
            pos = end + 1;
            line_no = if line_no < usize::MAX {
                line_no + 1
            } else {
                line_no
            };
            proof {
                line = line + 1;
            }
        }
    }
}

// ---------------------------------------------------------------------
// Writing the INI text.
/// `key = value`.
pub open spec fn entry_text(key: Seq<char>, value: Seq<char>) -> Seq<char> {
    key + " = "@ + value
}

/// `key = value` and a line break.
pub open spec fn setting_line(key: Seq<char>, value: Seq<char>) -> Seq<char> {
    entry_text(key, value) + "\n"@
}

/// `true` or `false`, as `bool`'s `Display` writes it.
pub open spec fn bool_text(b: bool) -> Seq<char> {
    if b {
        "true"@
    } else {
        "false"@
    }
}

/// Words joined by single spaces.
pub open spec fn join_words(ws: Seq<Seq<char>>) -> Seq<char>
    decreases ws.len(),
{
    if ws.len() == 0 {
        seq![]
    } else if ws.len() == 1 {
        ws[0]
    } else {
        ws[0] + (" "@ + join_words(ws.drop_first()))
    }
}

/// The decimal texts of the DPI stages.
pub open spec fn dpi_words(dpis: Seq<u32>) -> Seq<Seq<char>> {
    Seq::new(dpis.len(), |i: int| decimal(dpis[i] as nat))
}

/// The INI text of a configuration, as it is saved: the `[general]`
/// header, then one `key = value` line per setting.
pub open spec fn ini_text(c: MouseConfig) -> Seq<char> {
    (SECTION_GENERAL@ + "\n"@) + (setting_line(
        KEY_POLLING_RATE@,
        decimal(c.polling_rate.spec_hz() as nat),
    ) + (setting_line(KEY_SLEEP_TIME@, seconds_text(c.sleep_time_ms as nat)) + (setting_line(
        KEY_DEEP_SLEEP_TIME@,
        decimal(c.deep_sleep_time as nat),
    ) + (setting_line(KEY_KEY_RESPONSE_TIME@, decimal(c.key_response_time as nat)) + (
    setting_line(KEY_DPIS@, join_words(dpi_words(c.dpis@))) + (setting_line(
        KEY_ACTIVE_DPI@,
        decimal(c.active_dpi as nat),
    ) + (setting_line(KEY_RIPPLE_CONTROL@, bool_text(c.ripple_control)) + setting_line(
        KEY_ANGLE_SNAP@,
        bool_text(c.angle_snap),
    ))))))))
}

/// `key = value`, a line break, then `rest`.
fn setting_then(key: &str, value: &str, rest: &str) -> (s: String)
    ensures
        s@ == setting_line(key@, value@) + rest@,
{
    let mut s = String::from_str(key);
    s.append(" = ");
    s.append(value);
    s.append("\n");
    let ghost line = s@;
    assert(line =~= setting_line(key@, value@));
    s.append(rest);
    s
}

/// The decimal text of `n` as a `String`.
fn decimal_string(n: u64) -> (s: String)
    ensures
        s@ == decimal(n as nat),
{
    let mut digits: Vec<char> = Vec::new();
    push_decimal(&mut digits, n);
    assert(digits@ =~= decimal(n as nat));
    string_from_chars(digits.as_slice())
}

/// `true` or `false`.
fn bool_string(b: bool) -> (s: String)
    ensures
        s@ == bool_text(b),
{
    if b {
        String::from_str("true")
    } else {
        String::from_str("false")
    }
}

/// The DPI values in decimal, separated by single spaces.
fn dpis_string(dpis: &[u32; 6]) -> (s: String)
    ensures
        s@ == join_words(dpi_words(dpis@)),
{
    let mut i: usize = 6;
    let ghost ws = dpi_words(dpis@);
    assert(ws.skip(6) =~= Seq::<Seq<char>>::empty());
    // Built from the back: `tail` holds the words from `i` on.
    let mut tail: Vec<char> = Vec::new();
    while i > 0
        invariant
            i <= 6,
            ws == dpi_words(dpis@),
            ws.len() == 6,
            tail@ == join_words(ws.skip(i as int)),
        decreases i,
    {
        let mut next: Vec<char> = Vec::new();
        push_decimal(&mut next, dpis[i - 1] as u64);
        assert(next@ =~= decimal(dpis@[i - 1] as nat));
        if i < 6 {
            next.push(' ');
            let mut k: usize = 0;
            let ghost head = next@;
            while k < tail.len()
                invariant
                    k <= tail@.len(),
                    next@ == head + tail@.take(k as int),
                decreases tail@.len() - k,
            {
                next.push(tail[k]);
                assert(next@ =~= head + tail@.take(k + 1));
                k = k + 1;
            }
            assert(tail@.take(tail@.len() as int) =~= tail@);
        }
        proof {
            let rest = ws.skip(i - 1);
            assert(rest[0] == decimal(dpis@[i - 1] as nat));
            assert(rest.drop_first() =~= ws.skip(i as int));
            if i == 6 {
                assert(rest.len() == 1);
            }
            reveal_strlit(" ");
        }
        assert(next@ =~= join_words(ws.skip(i - 1)));
        tail = next;
        i = i - 1;
    }
    assert(ws.skip(0) =~= ws);
    string_from_chars(tail.as_slice())
}

impl MouseConfig {
    /// The INI text of the configuration, as `save_to_file` writes it.
    pub fn to_ini_string(&self) -> (s: String)
        ensures
            s@ == ini_text(*self),
    {
        let angle = setting_then(KEY_ANGLE_SNAP, bool_string(self.angle_snap).as_str(), "");
        proof {
            reveal_strlit("");
        }
        assert(angle@ =~= setting_line(KEY_ANGLE_SNAP@, bool_text(self.angle_snap)));
        let ripple = setting_then(
            KEY_RIPPLE_CONTROL,
            bool_string(self.ripple_control).as_str(),
            angle.as_str(),
        );
        let active = setting_then(
            KEY_ACTIVE_DPI,
            decimal_string(self.active_dpi as u64).as_str(),
            ripple.as_str(),
        );
        let dpis = setting_then(KEY_DPIS, dpis_string(&self.dpis).as_str(), active.as_str());
        let key_response = setting_then(
            KEY_KEY_RESPONSE_TIME,
            decimal_string(self.key_response_time as u64).as_str(),
            dpis.as_str(),
        );
        let deep = setting_then(
            KEY_DEEP_SLEEP_TIME,
            decimal_string(self.deep_sleep_time as u64).as_str(),
            key_response.as_str(),
        );
        let mut secs: Vec<char> = Vec::new();
        push_seconds(&mut secs, self.sleep_time_ms);
        assert(secs@ =~= seconds_text(self.sleep_time_ms as nat));
        let sleep = setting_then(
            KEY_SLEEP_TIME,
            string_from_chars(secs.as_slice()).as_str(),
            deep.as_str(),
        );
        let rate = setting_then(
            KEY_POLLING_RATE,
            decimal_string(self.polling_rate.as_hz() as u64).as_str(),
            sleep.as_str(),
        );
        let mut s = String::from_str(SECTION_GENERAL);
        s.append("\n");
        s.append(rate.as_str());
        s
    }
}

// ---------------------------------------------------------------------
// Applying a configuration to the mouse.
/// The three feature reports that apply a configuration, in the order they
/// are written: polling rate, sleep timers, DPI profile.
pub struct ConfigReports {
    pub polling_rate: [u8; 9],
    pub sleep: [u8; 15],
    pub dpi: [u8; 56],
}

impl MouseConfig {
    /// The feature reports that apply this configuration, after checking it
    /// with `validate`. A valid configuration always yields its reports.
    pub fn hardware_reports(&self) -> (r: Result<ConfigReports, DriverError>)
        ensures
            match config_check(*self) {
                None => r matches Ok(rep) && rep.polling_rate@ == polling_rate_report(
                    self.polling_rate,
                ) && rep.sleep@ == sleep_report(
                    self.sleep_time_ms,
                    self.deep_sleep_time,
                    self.key_response_time,
                ) && rep.dpi@ == dpi_report(
                    self.dpis@,
                    self.active_dpi,
                    self.angle_snap,
                    self.ripple_control,
                ),
                Some(v) => r matches Err(e) && e@ == v,
            },
    {
        match self.validate() {
            Err(e) => return Err(e),
            Ok(()) => {},
        }
        let polling_rate = polling_rate_payload(self.polling_rate);
        let sleep = match sleep_times_payload(
            self.sleep_time_ms,
            self.deep_sleep_time,
            self.key_response_time,
        ) {
            Ok(p) => p,
            Err(e) => return Err(e),
        };
        let dpi = match dpi_profile_payload(
            self.dpis,
            self.active_dpi,
            self.angle_snap,
            self.ripple_control,
        ) {
            Ok(p) => p,
            Err(e) => return Err(e),
        };
        Ok(ConfigReports { polling_rate, sleep, dpi })
    }
}

// ---------------------------------------------------------------------
// Where the configuration file is looked for.
/// `name` appended to the directory `base` as `PathBuf::join` appends a
/// relative path on Unix: a `/` goes between them unless `base` is empty
/// or already ends with one.
pub open spec fn join_path(base: Seq<char>, name: Seq<char>) -> Seq<char> {
    if base.len() == 0 {
        name
    } else if base.last() == '/' {
        base + name
    } else {
        base + "/"@ + name
    }
}

/// The paths where the configuration file is looked for, in order: the
/// path given, `$XDG_CONFIG_HOME/attack-shark-r1.ini`,
/// `$HOME/.config/attack-shark-r1.ini`, `/etc/attack-shark-r1.ini`; the
/// first two and the third only when given.
pub open spec fn config_candidates_spec(
    custom: Option<Seq<char>>,
    xdg: Option<Seq<char>>,
    home: Option<Seq<char>>,
) -> Seq<Seq<char>> {
    (match custom {
        Some(p) => seq![p],
        None => seq![],
    }) + (match xdg {
        Some(x) => seq![join_path(x, CONFIG_FILE_NAME@)],
        None => seq![],
    }) + (match home {
        Some(h) => seq![join_path(join_path(h, ".config"@), CONFIG_FILE_NAME@)],
        None => seq![],
    }) + seq![ETC_CONFIG_PATH@]
}

/// `join_path` on strings.
fn join_path_string(base: &str, name: &str) -> (s: String)
    ensures
        s@ == join_path(base@, name@),
{
    let chars = chars_of(base);
    if chars.len() == 0 {
        String::from_str(name)
    } else if chars[chars.len() - 1] == '/' {
        let mut s = String::from_str(base);
        s.append(name);
        s
    } else {
        let mut s = String::from_str(base);
        s.append("/");
        s.append(name);
        s
    }
}

/// The paths where the configuration file is looked for, in order (see
/// `config_candidates_spec`); the first that exists is used.
pub fn config_candidates(custom: Option<&str>, xdg: Option<&str>, home: Option<&str>) -> (r: Vec<
    String,
>)
    ensures
        r@.len() == config_candidates_spec(
            match custom {
                Some(p) => Some(p@),
                None => None,
            },
            match xdg {
                Some(x) => Some(x@),
                None => None,
            },
            match home {
                Some(h) => Some(h@),
                None => None,
            },
        ).len(),
        forall|i: int|
            0 <= i < r@.len() ==> (#[trigger] r@[i])@ == config_candidates_spec(
                match custom {
                    Some(p) => Some(p@),
                    None => None,
                },
                match xdg {
                    Some(x) => Some(x@),
                    None => None,
                },
                match home {
                    Some(h) => Some(h@),
                    None => None,
                },
            )[i],
{
    let ghost c = match custom {
        Some(p) => Some(p@),
        None => None,
    };
    let ghost x = match xdg {
        Some(x) => Some(x@),
        None => None,
    };
    let ghost h = match home {
        Some(h) => Some(h@),
        None => None,
    };
    let mut r: Vec<String> = Vec::new();
    let ghost mut expect: Seq<Seq<char>> = seq![];
    match custom {
        Some(p) => {
            r.push(String::from_str(p));
            proof {
                expect = expect.push(p@);
            }
        },
        None => {},
    }
    assert(expect =~= (match c {
        Some(p) => seq![p],
        None => seq![],
    }));
    match xdg {
        Some(base) => {
            r.push(join_path_string(base, CONFIG_FILE_NAME));
            proof {
                expect = expect.push(join_path(base@, CONFIG_FILE_NAME@));
            }
        },
        None => {},
    }
    match home {
        Some(base) => {
            let dir = join_path_string(base, ".config");
            r.push(join_path_string(dir.as_str(), CONFIG_FILE_NAME));
            proof {
                expect = expect.push(join_path(join_path(base@, ".config"@), CONFIG_FILE_NAME@));
            }
        },
        None => {},
    }
    r.push(String::from_str(ETC_CONFIG_PATH));
    proof {
        expect = expect.push(ETC_CONFIG_PATH@);
        assert(expect =~= config_candidates_spec(c, x, h));
    }
    assert(forall|i: int| 0 <= i < r@.len() ==> (#[trigger] r@[i])@ == expect[i]);
    r
}

} // verus!
