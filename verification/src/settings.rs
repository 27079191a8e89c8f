//! The settings: their defaults, the bounds they are held to, and the file they are kept in.

use crate::text::{
    chars_of, decimal, decimal_string, digits_value, is_digit, is_space, law_number_reads_back,
    law_only_space_is_trimmed, law_rows_of_joined, law_rows_of_one_line,
    law_space_around_is_trimmed, law_trimmed_stays, lemma_decimal, number_in, parse_u32, rows,
    string_of, text_is, texts, trim, trimmed,
};
use crate::wide::{law_utf16_joins, le_bytes, low_byte_first, utf16, wide};
use vstd::prelude::*;

verus! {

/// The least and the greatest clip length, in seconds.
pub const MIN_CLIP_SECS: u32 = 10;

pub const MAX_CLIP_SECS: u32 = 120;

/// The least and the greatest frame rate, in frames a second.
pub const MIN_FPS: u32 = 1;

pub const MAX_FPS: u32 = 120;

/// The least and the greatest bitrate, in megabits a second.
pub const MIN_BITRATE: u32 = 1;

pub const MAX_BITRATE: u32 = 100;

/// The accent hue that a fresh installation has: the bit pattern of 45 degrees.
pub const DEFAULT_HUE_BITS: u32 = 0x4234_0000;

/// What the user can set.
#[derive(Debug)]
pub struct Settings {
    pub monitor_index: u32,
    pub clip_secs: u32,
    pub fps: u32,
    pub bitrate_mbps: u32,
    pub start_with_windows: bool,
    /// The accent hue in degrees: the bit pattern of a single-precision number, carried along
    /// unread.
    pub hue_bits: u32,
    /// The hotkey's modifier keys, as Windows counts them.
    pub hotkey_mods: u32,
    /// The hotkey's virtual key code.
    pub hotkey_vk: u32,
    pub bg_image_path: String,
}

/// The settings as values.
#[verifier::ext_equal]
pub struct Config {
    pub monitor_index: u32,
    pub clip_secs: u32,
    pub fps: u32,
    pub bitrate_mbps: u32,
    pub start_with_windows: bool,
    pub hue_bits: u32,
    pub hotkey_mods: u32,
    pub hotkey_vk: u32,
    pub bg_image_path: Seq<char>,
}

/// What a settings file says: the settings, and the texts that it gives for the hue, in order.
#[verifier::ext_equal]
pub struct Loaded {
    pub config: Config,
    pub hues: Seq<Seq<char>>,
}

impl View for Settings {
    type V = Config;

    open spec fn view(&self) -> Config {
        Config {
            monitor_index: self.monitor_index,
            clip_secs: self.clip_secs,
            fps: self.fps,
            bitrate_mbps: self.bitrate_mbps,
            start_with_windows: self.start_with_windows,
            hue_bits: self.hue_bits,
            hotkey_mods: self.hotkey_mods,
            hotkey_vk: self.hotkey_vk,
            bg_image_path: self.bg_image_path@,
        }
    }
}

/// The settings of a fresh installation: clips of 30 seconds at 30 frames a second and 30
/// megabits a second, saved by Ctrl + Shift + F8.
pub open spec fn default_config() -> Config {
    Config {
        monitor_index: 0,
        clip_secs: 30,
        fps: 30,
        bitrate_mbps: 30,
        start_with_windows: false,
        hue_bits: DEFAULT_HUE_BITS,
        hotkey_mods: 0x0006,
        hotkey_vk: 0x77,
        bg_image_path: Seq::empty(),
    }
}

/// `v`, or the bound that it lies beyond.
pub open spec fn clamped(v: u32, low: u32, high: u32) -> u32 {
    if v < low {
        low
    } else if v > high {
        high
    } else {
        v
    }
}

/// Where the first `=` of a line stands: past its end where it has none.
pub open spec fn equals_sign(line: Seq<char>) -> int
    decreases line.len(),
{
    if line.len() == 0 || line[0] == '=' {
        0
    } else {
        1 + equals_sign(line.skip(1))
    }
}

/// What a line has before its first `=`.
pub open spec fn key_of(line: Seq<char>) -> Seq<char> {
    trimmed(line.take(equals_sign(line)))
}

/// What a line has after its first `=`: nothing where it has none.
pub open spec fn value_of(line: Seq<char>) -> Seq<char> {
    if equals_sign(line) < line.len() {
        trimmed(line.skip(equals_sign(line) + 1))
    } else {
        Seq::empty()
    }
}

/// What is said once `key` is given `val`: the last value that can be read counts, numbers
/// are held to their bounds, and a key that there is not says nothing.
pub open spec fn with_entry(l: Loaded, key: Seq<char>, val: Seq<char>) -> Loaded {
    let c = l.config;
    if key == "monitor_index"@ {
        match number_in(val) {
            Some(v) => Loaded { config: Config { monitor_index: v, ..c }, ..l },
            None => l,
        }
    } else if key == "clip_secs"@ {
        match number_in(val) {
            Some(v) => Loaded {
                config: Config { clip_secs: clamped(v, MIN_CLIP_SECS, MAX_CLIP_SECS), ..c },
                ..l
            },
            None => l,
        }
    } else if key == "fps"@ {
        match number_in(val) {
            Some(v) => Loaded { config: Config { fps: clamped(v, MIN_FPS, MAX_FPS), ..c }, ..l },
            None => l,
        }
    } else if key == "bitrate_mbps"@ {
        match number_in(val) {
            Some(v) => Loaded {
                config: Config { bitrate_mbps: clamped(v, MIN_BITRATE, MAX_BITRATE), ..c },
                ..l
            },
            None => l,
        }
    } else if key == "hue"@ {
        Loaded { hues: l.hues.push(val), ..l }
    } else if key == "hotkey_mods"@ {
        match number_in(val) {
            Some(v) => Loaded { config: Config { hotkey_mods: v, ..c }, ..l },
            None => l,
        }
    } else if key == "hotkey_vk"@ {
        match number_in(val) {
            Some(v) => Loaded { config: Config { hotkey_vk: v, ..c }, ..l },
            None => l,
        }
    } else if key == "bg_image_path"@ {
        Loaded { config: Config { bg_image_path: val, ..c }, ..l }
    } else {
        l
    }
}

/// What is said once one row of a file is read. Blank rows and rows that begin with `#` say
/// nothing.
pub open spec fn with_row(l: Loaded, row: Seq<char>) -> Loaded {
    let line = trimmed(row);
    if line.len() == 0 || line[0] == '#' {
        l
    } else {
        with_entry(l, key_of(line), value_of(line))
    }
}

/// What is said once the rows of a file are read, the first one first.
pub open spec fn with_rows(l: Loaded, s: Seq<Seq<char>>) -> Loaded
    decreases s.len(),
{
    if s.len() == 0 {
        l
    } else {
        with_row(with_rows(l, s.drop_last()), s.last())
    }
}

/// What is said before any file is read.
pub open spec fn unread(start_with_windows: bool) -> Loaded {
    Loaded {
        config: Config { start_with_windows, ..default_config() },
        hues: Seq::empty(),
    }
}

/// What a settings file of this text says. Whether the program starts with Windows is not kept
/// in the file.
pub open spec fn read_back(start_with_windows: bool, text: Seq<char>) -> Loaded {
    with_rows(unread(start_with_windows), rows(text))
}

/// One line of the settings file.
pub open spec fn entry(key: Seq<char>, val: Seq<char>) -> Seq<char> {
    (key.push('=') + val).push('\n')
}

/// The text of the settings file, where `hue` is the hue in degrees.
pub open spec fn file_text(c: Config, hue: Seq<char>) -> Seq<char> {
    entry("monitor_index"@, decimal(c.monitor_index as nat))
        + entry("clip_secs"@, decimal(c.clip_secs as nat))
        + entry("fps"@, decimal(c.fps as nat))
        + entry("bitrate_mbps"@, decimal(c.bitrate_mbps as nat))
        + entry("hue"@, hue)
        + entry("hotkey_mods"@, decimal(c.hotkey_mods as nat))
        + entry("hotkey_vk"@, decimal(c.hotkey_vk as nat))
        + entry("bg_image_path"@, c.bg_image_path)
}

/// Whether the settings lie within their bounds.
pub open spec fn in_bounds(c: Config) -> bool {
    &&& MIN_CLIP_SECS <= c.clip_secs <= MAX_CLIP_SECS
    &&& MIN_FPS <= c.fps <= MAX_FPS
    &&& MIN_BITRATE <= c.bitrate_mbps <= MAX_BITRATE
}

fn clamp(v: u32, low: u32, high: u32) -> (r: u32)
    ensures
        r == clamped(v, low, high),
{
    if v < low {
        low
    } else if v > high {
        high
    } else {
        v
    }
}

impl Default for Settings {
    fn default() -> (s: Settings)
        ensures
            s@ == default_config(),
    {
        Settings {
            monitor_index: 0,
            clip_secs: 30,
            fps: 30,
            bitrate_mbps: 30,
            start_with_windows: false,
            hue_bits: DEFAULT_HUE_BITS,
            hotkey_mods: 0x0006,
            hotkey_vk: 0x77,
            bg_image_path: String::new(),
        }
    }
}

impl Clone for Settings {
    fn clone(&self) -> (s: Settings)
        ensures
            s@ == self@,
    {
        Settings {
            monitor_index: self.monitor_index,
            clip_secs: self.clip_secs,
            fps: self.fps,
            bitrate_mbps: self.bitrate_mbps,
            start_with_windows: self.start_with_windows,
            hue_bits: self.hue_bits,
            hotkey_mods: self.hotkey_mods,
            hotkey_vk: self.hotkey_vk,
            bg_image_path: self.bg_image_path.clone(),
        }
    }
}

/// Takes in one row of a settings file.
fn read_row(s: &mut Settings, hues: &mut Vec<String>, row: &Vec<char>)
    ensures
        (Loaded { config: final(s)@, hues: texts(final(hues)@) }) == with_row(
            Loaded { config: old(s)@, hues: texts(old(hues)@) },
            row@,
        ),
{
    let ghost before = Loaded { config: s@, hues: texts(hues@) };
    let (lo, hi) = trim(row, 0, row.len());
    assert(row@.subrange(0, row@.len() as int) =~= row@);
    let ghost line = row@.subrange(lo as int, hi as int);
    if lo == hi || row[lo] == '#' {
        return ;
    }
    let mut eq: usize = lo;
    assert(line.skip(0) =~= line);
    while eq < hi && row[eq] != '='
        invariant
            lo <= eq <= hi <= row@.len(),
            line == row@.subrange(lo as int, hi as int),
            equals_sign(line) == (eq - lo) + equals_sign(line.skip(eq - lo)),
        decreases hi - eq,
    {
        assert(line.skip(eq - lo)[0] == row@[eq as int]);
        assert(line.skip(eq - lo).skip(1) =~= line.skip(eq - lo + 1));
        eq = eq + 1;
    }
    proof {
        if eq < hi {
            assert(line.skip(eq - lo)[0] == row@[eq as int]);
        }
        assert(equals_sign(line) == eq - lo);
        assert(line.take(eq - lo) =~= row@.subrange(lo as int, eq as int));
    }
    let (ka, kb) = trim(row, lo, eq);
    let (va, vb) = if eq < hi {
        assert(line.skip(eq - lo + 1) =~= row@.subrange(eq + 1, hi as int));
        trim(row, eq + 1, hi)
    } else {
        (hi, hi)
    };
    let ghost key = row@.subrange(ka as int, kb as int);
    let ghost val = row@.subrange(va as int, vb as int);
    assert(key == key_of(line));
    assert(val =~= value_of(line));
    if text_is(row, ka, kb, "monitor_index") {
        if let Some(v) = parse_u32(row, va, vb) {
            s.monitor_index = v;
        }
    } else if text_is(row, ka, kb, "clip_secs") {
        if let Some(v) = parse_u32(row, va, vb) {
            s.clip_secs = clamp(v, MIN_CLIP_SECS, MAX_CLIP_SECS);
        }
    } else if text_is(row, ka, kb, "fps") {
        if let Some(v) = parse_u32(row, va, vb) {
            s.fps = clamp(v, MIN_FPS, MAX_FPS);
        }
    } else if text_is(row, ka, kb, "bitrate_mbps") {
        if let Some(v) = parse_u32(row, va, vb) {
            s.bitrate_mbps = clamp(v, MIN_BITRATE, MAX_BITRATE);
        }
    } else if text_is(row, ka, kb, "hue") {
        let ghost had = hues@;
        hues.push(string_of(row, va, vb));
        assert(texts(hues@) =~= texts(had).push(val));
    } else if text_is(row, ka, kb, "hotkey_mods") {
        if let Some(v) = parse_u32(row, va, vb) {
            s.hotkey_mods = v;
        }
    } else if text_is(row, ka, kb, "hotkey_vk") {
        if let Some(v) = parse_u32(row, va, vb) {
            s.hotkey_vk = v;
        }
    } else if text_is(row, ka, kb, "bg_image_path") {
        s.bg_image_path = string_of(row, va, vb);
    }
    assert((Loaded { config: s@, hues: texts(hues@) }) =~= with_row(before, row@));
}

/// Appends one line of the settings file.
fn push_entry(out: &mut String, key: &str, val: &str)
    ensures
        final(out)@ == old(out)@ + entry(key@, val@),
{
    let ghost before = out@;
    out.push_str(key);
    out.push('=');
    out.push_str(val);
    out.push('\n');
    assert(out@ =~= before + entry(key@, val@));
}

impl Settings {
    /// The settings that a file of this text gives, or those of a fresh installation where
    /// there is no file, and the texts that it gives for the hue: the last of them that is a
    /// number counts. Whether the program starts with Windows comes from elsewhere.
    pub fn load(start_with_windows: bool, text: Option<&str>) -> (r: (Settings, Vec<String>))
        ensures
            (Loaded { config: r.0@, hues: texts(r.1@) }) == match text {
                Some(t) => read_back(start_with_windows, t@),
                None => unread(start_with_windows),
            },
    {
        let mut s = Settings::default();
        s.start_with_windows = start_with_windows;
        let mut hues: Vec<String> = Vec::new();
        let ghost start = unread(start_with_windows);
        assert(texts(hues@) =~= Seq::<Seq<char>>::empty());
        assert((Loaded { config: s@, hues: texts(hues@) }) =~= start);
        let t: &str = match text {
            Some(t) => t,
            None => {
                return (s, hues);
            },
        };
        let chars = chars_of(t);
        let mut row: Vec<char> = Vec::new();
        let mut i: usize = 0;
        proof {
            assert(t@.take(0) =~= Seq::<char>::empty());
            assert(rows(t@.take(0)).drop_last() =~= Seq::<Seq<char>>::empty());
        }
        while i < chars.len()
            invariant
                i <= chars@.len(),
                chars@ == t@,
                rows(t@.take(i as int)).len() > 0,
                row@ == rows(t@.take(i as int)).last(),
                (Loaded { config: s@, hues: texts(hues@) }) == with_rows(
                    start,
                    rows(t@.take(i as int)).drop_last(),
                ),
            decreases chars@.len() - i,
        {
            let ghost cut = rows(t@.take(i as int));
            let ghost next = rows(t@.take(i + 1));
            proof {
                assert(t@.take(i + 1).drop_last() =~= t@.take(i as int));
                assert(t@.take(i + 1).last() == t@[i as int]);
            }
            if chars[i] == '\n' {
                read_row(&mut s, &mut hues, &row);
                row = Vec::new();
                assert(next.drop_last() =~= cut);
                assert(row@ =~= next.last());
            } else {
                row.push(chars[i]);
                assert(next.drop_last() =~= cut.drop_last());
            }
            i = i + 1;
        }
        assert(t@.take(i as int) =~= t@);
        read_row(&mut s, &mut hues, &row);
        (s, hues)
    }

    /// The text of the settings file, where `hue` is the hue in degrees.
    pub fn save(&self, hue: &str) -> (text: String)
        ensures
            text@ == file_text(self@, hue@),
    {
        let mut t = String::new();
        push_entry(&mut t, "monitor_index", decimal_string(self.monitor_index as u64).as_str());
        push_entry(&mut t, "clip_secs", decimal_string(self.clip_secs as u64).as_str());
        push_entry(&mut t, "fps", decimal_string(self.fps as u64).as_str());
        push_entry(&mut t, "bitrate_mbps", decimal_string(self.bitrate_mbps as u64).as_str());
        push_entry(&mut t, "hue", hue);
        push_entry(&mut t, "hotkey_mods", decimal_string(self.hotkey_mods as u64).as_str());
        push_entry(&mut t, "hotkey_vk", decimal_string(self.hotkey_vk as u64).as_str());
        push_entry(&mut t, "bg_image_path", self.bg_image_path.as_str());
        assert(t@ =~= file_text(self@, hue@));
        t
    }
}

/// The bytes that the registry keeps to start the program with Windows: the quoted path of
/// its executable as a wide string.
pub open spec fn startup_command(exe: Seq<char>) -> Seq<u8> {
    low_byte_first(utf16("\""@ + exe + "\""@).push(0))
}

/// The bytes that the registry keeps to start the program at `exe` with Windows.
pub fn startup_command_bytes(exe: &str) -> (r: Vec<u8>)
    requires
        startup_command(exe@).len() <= usize::MAX,
    ensures
        r@ == startup_command(exe@),
{
    let mut quoted = String::new();
    quoted.push_str("\"");
    quoted.push_str(exe);
    quoted.push_str("\"");
    assert(quoted@ =~= "\""@ + exe@ + "\""@);
    let w = wide(quoted.as_str());
    le_bytes(&w)
}

/// Whatever a settings file says, the settings that are read lie within their bounds.
pub proof fn law_loaded_is_in_bounds(start_with_windows: bool, text: Seq<char>)
    ensures
        in_bounds(read_back(start_with_windows, text).config),
        in_bounds(unread(start_with_windows).config),
{
    lemma_rows_keep_bounds(unread(start_with_windows), rows(text));
}

proof fn lemma_rows_keep_bounds(l: Loaded, s: Seq<Seq<char>>)
    requires
        in_bounds(l.config),
    ensures
        in_bounds(with_rows(l, s).config),
    decreases s.len(),
{
    if s.len() > 0 {
        lemma_rows_keep_bounds(l, s.drop_last());
    }
}

proof fn lemma_rows_in_turn(l: Loaded, a: Seq<Seq<char>>, b: Seq<Seq<char>>)
    ensures
        with_rows(l, a + b) == with_rows(with_rows(l, a), b),
    decreases b.len(),
{
    if b.len() == 0 {
        assert(a + b =~= a);
    } else {
        assert((a + b).drop_last() =~= a + b.drop_last());
        lemma_rows_in_turn(l, a, b.drop_last());
    }
}

/// A line added to a settings file is read after all that stood there before.
pub proof fn law_later_lines_count(start_with_windows: bool, text: Seq<char>, line: Seq<char>)
    requires
        !line.contains('\n'),
    ensures
        read_back(start_with_windows, text.push('\n') + line) == with_row(
            read_back(start_with_windows, text),
            line,
        ),
{
    law_rows_of_joined(text, line);
    law_rows_of_one_line(line);
    lemma_rows_in_turn(unread(start_with_windows), rows(text), rows(line));
    lemma_single_row(read_back(start_with_windows, text), line);
}

proof fn lemma_single_row(l: Loaded, row: Seq<char>)
    ensures
        with_rows(l, seq![row]) == with_row(l, row),
{
    let s = seq![row];
    assert(s.drop_last() =~= Seq::<Seq<char>>::empty());
    assert(with_rows(l, s.drop_last()) == l);
}

/// Whether a text can stand as a value in the settings file and be read back: it is one line,
/// with no white space at its ends.
pub open spec fn is_plain_value(s: Seq<char>) -> bool {
    &&& !s.contains('\n')
    &&& s.len() > 0 ==> !is_space(s.first()) && !is_space(s.last())
}

/// Whether a text can stand as a key.
pub open spec fn is_plain_key(s: Seq<char>) -> bool {
    &&& s.len() > 0
    &&& s.first() != '#'
    &&& forall|i: int|
        0 <= i < s.len() ==> !is_space(#[trigger] s[i]) && s[i] != '=' && s[i] != '\n'
}

proof fn lemma_equals_sign(key: Seq<char>, val: Seq<char>)
    requires
        forall|i: int| 0 <= i < key.len() ==> #[trigger] key[i] != '=',
    ensures
        equals_sign(key.push('=') + val) == key.len(),
    decreases key.len(),
{
    let line = key.push('=') + val;
    if key.len() > 0 {
        assert(line[0] == key[0]);
        let rest = key.skip(1);
        assert forall|i: int| 0 <= i < rest.len() implies #[trigger] rest[i] != '=' by {
            assert(rest[i] == key[i + 1]);
        }
        lemma_equals_sign(rest, val);
        assert(line.skip(1) =~= rest.push('=') + val);
    }
}

proof fn lemma_entry_row(l: Loaded, key: Seq<char>, val: Seq<char>)
    requires
        is_plain_key(key),
        is_plain_value(val),
    ensures
        !(key.push('=') + val).contains('\n'),
        with_row(l, key.push('=') + val) == with_entry(l, key, val),
{
    let line = key.push('=') + val;
    assert(line.first() == key[0]);
    assert(!line.contains('\n')) by {
        if line.contains('\n') {
            let k = choose|k: int| 0 <= k < line.len() && line[k] == '\n';
            if k > key.len() {
                assert(val[k - key.len() - 1] == '\n');
            } else if k < key.len() {
                assert(key[k] == '\n');
            }
        }
    }
    assert(!is_space(line.last())) by {
        if val.len() > 0 {
            assert(line.last() == val.last());
        } else {
            assert(line.last() == '=');
        }
    }
    law_trimmed_stays(line);
    lemma_equals_sign(key, val);
    assert(line.take(key.len() as int) =~= key);
    assert(line.skip(key.len() as int + 1) =~= val);
    assert(!is_space(key[key.len() - 1]));
    law_trimmed_stays(key);
    law_trimmed_stays(val);
}

/// A file that begins with the entry `key=val` says what the entry says, and then what the rest
/// of the file says.
proof fn lemma_entry_first(l: Loaded, key: Seq<char>, val: Seq<char>, rest: Seq<char>)
    requires
        is_plain_key(key),
        is_plain_value(val),
    ensures
        with_rows(l, rows(entry(key, val) + rest)) == with_rows(
            with_entry(l, key, val),
            rows(rest),
        ),
{
    let line = key.push('=') + val;
    lemma_entry_row(l, key, val);
    law_rows_of_joined(line, rest);
    law_rows_of_one_line(line);
    lemma_rows_in_turn(l, rows(line), rows(rest));
    lemma_single_row(l, line);
}

proof fn lemma_number_is_plain(n: u32)
    ensures
        is_plain_value(decimal(n as nat)),
{
    lemma_decimal(n as nat);
    let d = decimal(n as nat);
    assert(is_digit(d[0]) && is_digit(d[d.len() - 1]));
    assert(!d.contains('\n')) by {
        if d.contains('\n') {
            let k = choose|k: int| 0 <= k < d.len() && d[k] == '\n';
            assert(is_digit(d[k]));
        }
    }
}

/// The keys of the settings file can stand as keys, and no two of them are alike.
proof fn lemma_keys()
    ensures
        is_plain_key("monitor_index"@),
        is_plain_key("clip_secs"@),
        is_plain_key("fps"@),
        is_plain_key("bitrate_mbps"@),
        is_plain_key("hue"@),
        is_plain_key("hotkey_mods"@),
        is_plain_key("hotkey_vk"@),
        is_plain_key("bg_image_path"@),
        "monitor_index"@.len() == 13 && "monitor_index"@[0] == 'm',
        "clip_secs"@.len() == 9 && "clip_secs"@[0] == 'c',
        "fps"@.len() == 3 && "fps"@[0] == 'f',
        "bitrate_mbps"@.len() == 12,
        "hue"@.len() == 3 && "hue"@[0] == 'h',
        "hotkey_mods"@.len() == 11,
        "hotkey_vk"@.len() == 9 && "hotkey_vk"@[0] == 'h',
        "bg_image_path"@.len() == 13 && "bg_image_path"@[0] == 'b',
{
    reveal_strlit("monitor_index");
    reveal_strlit("clip_secs");
    reveal_strlit("fps");
    reveal_strlit("bitrate_mbps");
    reveal_strlit("hue");
    reveal_strlit("hotkey_mods");
    reveal_strlit("hotkey_vk");
    reveal_strlit("bg_image_path");
}

proof fn lemma_regrouped(
    a: Seq<char>,
    b: Seq<char>,
    c: Seq<char>,
    d: Seq<char>,
    e: Seq<char>,
    f: Seq<char>,
    g: Seq<char>,
    h: Seq<char>,
)
    ensures
        a + b + c + d + e + f + g + h == a + (b + (c + (d + (e + (f + (g + (h
            + Seq::<char>::empty()))))))),
{
    let z = h + Seq::<char>::empty();
    assert(h =~= z);
    assert(a + b + c + d + e + f + g + z =~= a + b + c + d + e + f + (g + z));
    assert(a + b + c + d + e + f + (g + z) =~= a + b + c + d + e + (f + (g + z)));
    let y = f + (g + z);
    assert(a + b + c + d + e + y =~= a + b + c + d + (e + y));
    let x = e + y;
    assert(a + b + c + d + x =~= a + b + c + (d + x));
    let w = d + x;
    assert(a + b + c + w =~= a + b + (c + w));
    assert(a + b + (c + w) =~= a + (b + (c + w)));
}

/// Settings within their bounds are read back from the file that they are written to: all of
/// them but the hue, whose text is handed back instead, and whether the program starts with
/// Windows, which the file does not hold.
pub proof fn law_settings_read_back(c: Config, hue: Seq<char>)
    requires
        in_bounds(c),
        is_plain_value(c.bg_image_path),
        is_plain_value(hue),
    ensures
        read_back(c.start_with_windows, file_text(c, hue)) == (Loaded {
            config: Config { hue_bits: DEFAULT_HUE_BITS, ..c },
            hues: seq![hue],
        }),
{
    lemma_keys();
    let k0 = "monitor_index"@;
    let k1 = "clip_secs"@;
    let k2 = "fps"@;
    let k3 = "bitrate_mbps"@;
    let k4 = "hue"@;
    let k5 = "hotkey_mods"@;
    let k6 = "hotkey_vk"@;
    let k7 = "bg_image_path"@;
    let v0 = decimal(c.monitor_index as nat);
    let v1 = decimal(c.clip_secs as nat);
    let v2 = decimal(c.fps as nat);
    let v3 = decimal(c.bitrate_mbps as nat);
    let v5 = decimal(c.hotkey_mods as nat);
    let v6 = decimal(c.hotkey_vk as nat);
    let v7 = c.bg_image_path;
    let t8 = Seq::<char>::empty();
    let t7 = entry(k7, v7) + t8;
    let t6 = entry(k6, v6) + t7;
    let t5 = entry(k5, v5) + t6;
    let t4 = entry(k4, hue) + t5;
    let t3 = entry(k3, v3) + t4;
    let t2 = entry(k2, v2) + t3;
    let t1 = entry(k1, v1) + t2;
    let t0 = entry(k0, v0) + t1;
    lemma_regrouped(
        entry(k0, v0),
        entry(k1, v1),
        entry(k2, v2),
        entry(k3, v3),
        entry(k4, hue),
        entry(k5, v5),
        entry(k6, v6),
        entry(k7, v7),
    );
    assert(file_text(c, hue) == t0);
    lemma_number_is_plain(c.monitor_index);
    lemma_number_is_plain(c.clip_secs);
    lemma_number_is_plain(c.fps);
    lemma_number_is_plain(c.bitrate_mbps);
    lemma_number_is_plain(c.hotkey_mods);
    lemma_number_is_plain(c.hotkey_vk);
    law_number_reads_back(c.monitor_index);
    law_number_reads_back(c.clip_secs);
    law_number_reads_back(c.fps);
    law_number_reads_back(c.bitrate_mbps);
    law_number_reads_back(c.hotkey_mods);
    law_number_reads_back(c.hotkey_vk);
    let l0 = unread(c.start_with_windows);
    let l1 = with_entry(l0, k0, v0);
    lemma_entry_first(l0, k0, v0, t1);
    let l2 = with_entry(l1, k1, v1);
    lemma_entry_first(l1, k1, v1, t2);
    let l3 = with_entry(l2, k2, v2);
    lemma_entry_first(l2, k2, v2, t3);
    let l4 = with_entry(l3, k3, v3);
    lemma_entry_first(l3, k3, v3, t4);
    let l5 = with_entry(l4, k4, hue);
    lemma_entry_first(l4, k4, hue, t5);
    let l6 = with_entry(l5, k5, v5);
    lemma_entry_first(l5, k5, v5, t6);
    let l7 = with_entry(l6, k6, v6);
    lemma_entry_first(l6, k6, v6, t7);
    let l8 = with_entry(l7, k7, v7);
    lemma_entry_first(l7, k7, v7, t8);
    assert(rows(t8) == seq![Seq::<char>::empty()]);
    lemma_single_row(l8, t8);
    assert(with_row(l8, t8) == l8);
    assert(l8 =~= (Loaded {
        config: Config { hue_bits: DEFAULT_HUE_BITS, ..c },
        hues: seq![hue],
    }));
}

/// A hue of so many tenths of a degree, in degrees with one decimal place.
pub open spec fn hue_words(tenths: nat) -> Seq<char> {
    decimal(tenths / 10).push('.') + decimal(tenths % 10)
}

/// The same of settings whose hue is written with one decimal place: the hue comes back to the
/// tenth of a degree.
pub proof fn law_settings_and_hue_read_back(c: Config, tenths: nat)
    requires
        in_bounds(c),
        is_plain_value(c.bg_image_path),
    ensures
        read_back(c.start_with_windows, file_text(c, hue_words(tenths))) == (Loaded {
            config: Config { hue_bits: DEFAULT_HUE_BITS, ..c },
            hues: seq![hue_words(tenths)],
        }),
{
    let whole = decimal(tenths / 10);
    let part = decimal(tenths % 10);
    let hue = hue_words(tenths);
    lemma_decimal(tenths / 10);
    lemma_decimal(tenths % 10);
    assert forall|k: int| 0 <= k < hue.len() implies is_digit(#[trigger] hue[k]) || hue[k] == '.' by {
        if k < whole.len() {
            assert(hue[k] == whole[k]);
            assert(is_digit(whole[k]));
        } else if k > whole.len() {
            assert(hue[k] == part[k - whole.len() - 1]);
            assert(is_digit(part[k - whole.len() - 1]));
        }
    }
    assert(is_digit(hue[0]) || hue[0] == '.');
    assert(is_digit(hue[hue.len() - 1]) || hue[hue.len() - 1] == '.');
    assert(!hue.contains('\n'));
    law_settings_read_back(c, hue);
}

/// Hues of different tenths of a degree are written in different ways.
pub proof fn law_hues_differ(a: nat, b: nat)
    requires
        hue_words(a) == hue_words(b),
    ensures
        a == b,
{
    lemma_hue_words(a);
    lemma_hue_words(b);
}

proof fn lemma_hue_words(tenths: nat)
    ensures
        hue_words(tenths).len() >= 3,
        digits_value(hue_words(tenths).drop_last().drop_last()) == tenths / 10,
        hue_words(tenths).last() as nat == 48 + tenths % 10,
{
    lemma_decimal(tenths / 10);
    let whole = decimal(tenths / 10);
    assert(decimal(tenths % 10) =~= seq![((48 + tenths % 10) as nat) as char]);
    assert(hue_words(tenths).drop_last().drop_last() =~= whole);
}

/// Whether a text is white space throughout.
pub open spec fn is_blank(s: Seq<char>) -> bool {
    forall|i: int| 0 <= i < s.len() ==> is_space(#[trigger] s[i])
}

/// White space may stand around a line, and on both sides of its `=`.
pub proof fn law_lines_may_be_spaced(
    l: Loaded,
    key: Seq<char>,
    val: Seq<char>,
    a: Seq<char>,
    b: Seq<char>,
    c: Seq<char>,
    d: Seq<char>,
)
    requires
        is_plain_key(key),
        is_plain_value(val),
        is_blank(a),
        is_blank(b),
        is_blank(c),
        is_blank(d),
    ensures
        with_row(l, a + ((key + b).push('=') + (c + val)) + d) == with_row(
            l,
            key.push('=') + val,
        ),
{
    let line = (key + b).push('=') + (c + val);
    let none = Seq::<char>::empty();
    lemma_entry_row(l, key, val);
    law_space_around_is_trimmed(a, line, d);
    law_space_around_is_trimmed(none, key, b);
    law_space_around_is_trimmed(c, val, none);
    assert(none + key + b =~= key + b);
    assert(c + val + none =~= c + val);
    assert(!is_space(key[key.len() - 1]));
    law_trimmed_stays(key);
    law_trimmed_stays(val);
    assert(line.first() == key[0]);
    let front = key + b;
    assert forall|i: int| 0 <= i < front.len() implies #[trigger] front[i] != '=' by {
        if i >= key.len() {
            assert(front[i] == b[i - key.len()]);
        } else {
            assert(front[i] == key[i]);
        }
    }
    if val.len() > 0 {
        assert(line.last() == val.last());
        law_trimmed_stays(line);
        lemma_equals_sign(front, c + val);
        assert(line.take(front.len() as int) =~= front);
        assert(line.skip(front.len() as int + 1) =~= c + val);
    } else {
        let short = front.push('=');
        assert(c + val =~= c);
        assert(line =~= none + short + c);
        law_space_around_is_trimmed(none, short, c);
        assert(short.first() == key[0] && short.last() == '=');
        law_trimmed_stays(short);
        lemma_equals_sign(front, none);
        assert(short + none =~= short);
        assert(short.take(front.len() as int) =~= front);
        assert(short.skip(front.len() as int + 1) =~= none);
        assert(val =~= none);
    }
}

/// A line for a number sets that number and nothing else, whatever the file says before it: what
/// lies beyond the bounds is set to the nearer one.
pub proof fn law_numbers_set_their_own(start_with_windows: bool, text: Seq<char>, n: u32)
    ensures
        ({
            let before = read_back(start_with_windows, text);
            let c = before.config;
            let v = decimal(n as nat);
            let start = text.push('\n');
            &&& read_back(start_with_windows, start + ("monitor_index"@.push('=') + v)) == (Loaded {
                config: Config { monitor_index: n, ..c },
                ..before
            })
            &&& read_back(start_with_windows, start + ("clip_secs"@.push('=') + v)) == (Loaded {
                config: Config {
                    clip_secs: if n < 10 {
                        10
                    } else if n > 120 {
                        120
                    } else {
                        n
                    },
                    ..c
                },
                ..before
            })
            &&& read_back(start_with_windows, start + ("fps"@.push('=') + v)) == (Loaded {
                config: Config {
                    fps: if n < 1 {
                        1
                    } else if n > 120 {
                        120
                    } else {
                        n
                    },
                    ..c
                },
                ..before
            })
            &&& read_back(start_with_windows, start + ("bitrate_mbps"@.push('=') + v)) == (Loaded {
                config: Config {
                    bitrate_mbps: if n < 1 {
                        1
                    } else if n > 100 {
                        100
                    } else {
                        n
                    },
                    ..c
                },
                ..before
            })
            &&& read_back(start_with_windows, start + ("hotkey_mods"@.push('=') + v)) == (Loaded {
                config: Config { hotkey_mods: n, ..c },
                ..before
            })
            &&& read_back(start_with_windows, start + ("hotkey_vk"@.push('=') + v)) == (Loaded {
                config: Config { hotkey_vk: n, ..c },
                ..before
            })
        }),
{
    lemma_keys();
    lemma_number_is_plain(n);
    law_number_reads_back(n);
    let v = decimal(n as nat);
    lemma_line_added(start_with_windows, text, "monitor_index"@, v);
    lemma_line_added(start_with_windows, text, "clip_secs"@, v);
    lemma_line_added(start_with_windows, text, "fps"@, v);
    lemma_line_added(start_with_windows, text, "bitrate_mbps"@, v);
    lemma_line_added(start_with_windows, text, "hotkey_mods"@, v);
    lemma_line_added(start_with_windows, text, "hotkey_vk"@, v);
}

proof fn lemma_line_added(
    start_with_windows: bool,
    text: Seq<char>,
    key: Seq<char>,
    val: Seq<char>,
)
    requires
        is_plain_key(key),
        is_plain_value(val),
    ensures
        read_back(start_with_windows, text.push('\n') + (key.push('=') + val)) == with_entry(
            read_back(start_with_windows, text),
            key,
            val,
        ),
{
    let before = read_back(start_with_windows, text);
    lemma_entry_row(before, key, val);
    law_later_lines_count(start_with_windows, text, key.push('=') + val);
}

/// A line for the background image sets its path, whatever stands in it, and a line for the hue
/// is handed on as it is.
pub proof fn law_texts_set_their_own(start_with_windows: bool, text: Seq<char>, val: Seq<char>)
    requires
        is_plain_value(val),
    ensures
        ({
            let before = read_back(start_with_windows, text);
            let start = text.push('\n');
            &&& read_back(start_with_windows, start + ("bg_image_path"@.push('=') + val)) == (
            Loaded { config: Config { bg_image_path: val, ..before.config }, ..before })
            &&& read_back(start_with_windows, start + ("hue"@.push('=') + val)) == (Loaded {
                hues: before.hues.push(val),
                ..before
            })
        }),
{
    lemma_keys();
    lemma_line_added(start_with_windows, text, "bg_image_path"@, val);
    lemma_line_added(start_with_windows, text, "hue"@, val);
}

/// A line changes nothing where its key is none of the eight, or its value is no number and a
/// number is wanted.
pub proof fn law_other_lines_change_nothing(
    start_with_windows: bool,
    text: Seq<char>,
    key: Seq<char>,
    val: Seq<char>,
)
    requires
        is_plain_key(key),
        is_plain_value(val),
        key != "bg_image_path"@,
        key != "hue"@,
        number_in(val) is None || key != "monitor_index"@ && key != "clip_secs"@ && key != "fps"@
            && key != "bitrate_mbps"@ && key != "hotkey_mods"@ && key != "hotkey_vk"@,
    ensures
        read_back(start_with_windows, text.push('\n') + (key.push('=') + val)) == read_back(
            start_with_windows,
            text,
        ),
{
    lemma_line_added(start_with_windows, text, key, val);
}

/// Comments and blank lines change nothing, with white space in front of them or not.
pub proof fn law_comments_change_nothing(l: Loaded, space: Seq<char>, words: Seq<char>)
    requires
        is_blank(space),
    ensures
        with_row(l, space) == l,
        with_row(l, space + (seq!['#'] + words)) == l,
{
    let none = Seq::<char>::empty();
    law_space_around_is_trimmed(space, none, none);
    assert(space + none + none =~= space);
    let comment = seq!['#'] + words;
    law_space_around_is_trimmed(space, comment, none);
    assert(space + comment + none =~= space + comment);
    let at = law_only_space_is_trimmed(comment);
    assert(comment[0] == '#');
    if at > 0 {
        assert(is_space(comment[0]));
    }
    if trimmed(comment).len() > 0 {
        assert(trimmed(comment)[0] == comment[at]);
    }
}

/// Where a file says nothing, the settings are those of a fresh installation: 30 seconds at 30
/// frames and 30 megabits in a second, of the first monitor, saved with Ctrl, Shift and F8.
pub proof fn law_fresh_installation(start_with_windows: bool)
    ensures
        ({
            let c = unread(start_with_windows).config;
            &&& read_back(start_with_windows, Seq::empty()) == unread(start_with_windows)
            &&& unread(start_with_windows).hues.len() == 0
            &&& c.monitor_index == 0
            &&& c.clip_secs == 30
            &&& c.fps == 30
            &&& c.bitrate_mbps == 30
            &&& c.start_with_windows == start_with_windows
            &&& c.hue_bits == 0x4234_0000
            &&& c.hotkey_mods == 2 + 4
            &&& c.hotkey_vk == 0x77
            &&& c.bg_image_path.len() == 0
        }),
{
    let none = Seq::<char>::empty();
    assert(rows(none) == seq![none]);
    lemma_single_row(unread(start_with_windows), none);
}

/// The file has one line for each setting, its name before an `=` and its value behind it, in
/// this order, and nothing else.
pub proof fn law_file_has_a_line_for_each(c: Config, hue: Seq<char>)
    requires
        !hue.contains('\n'),
        !c.bg_image_path.contains('\n'),
    ensures
        rows(file_text(c, hue)) == seq![
            "monitor_index"@.push('=') + decimal(c.monitor_index as nat),
            "clip_secs"@.push('=') + decimal(c.clip_secs as nat),
            "fps"@.push('=') + decimal(c.fps as nat),
            "bitrate_mbps"@.push('=') + decimal(c.bitrate_mbps as nat),
            "hue"@.push('=') + hue,
            "hotkey_mods"@.push('=') + decimal(c.hotkey_mods as nat),
            "hotkey_vk"@.push('=') + decimal(c.hotkey_vk as nat),
            "bg_image_path"@.push('=') + c.bg_image_path,
            Seq::<char>::empty(),
        ],
{
    lemma_keys();
    lemma_number_is_plain(c.monitor_index);
    lemma_number_is_plain(c.clip_secs);
    lemma_number_is_plain(c.fps);
    lemma_number_is_plain(c.bitrate_mbps);
    lemma_number_is_plain(c.hotkey_mods);
    lemma_number_is_plain(c.hotkey_vk);
    let e0 = entry("monitor_index"@, decimal(c.monitor_index as nat));
    let e1 = entry("clip_secs"@, decimal(c.clip_secs as nat));
    let e2 = entry("fps"@, decimal(c.fps as nat));
    let e3 = entry("bitrate_mbps"@, decimal(c.bitrate_mbps as nat));
    let e4 = entry("hue"@, hue);
    let e5 = entry("hotkey_mods"@, decimal(c.hotkey_mods as nat));
    let e6 = entry("hotkey_vk"@, decimal(c.hotkey_vk as nat));
    let e7 = entry("bg_image_path"@, c.bg_image_path);
    let t8 = Seq::<char>::empty();
    let t7 = e7 + t8;
    let t6 = e6 + t7;
    let t5 = e5 + t6;
    let t4 = e4 + t5;
    let t3 = e3 + t4;
    let t2 = e2 + t3;
    let t1 = e1 + t2;
    lemma_regrouped(e0, e1, e2, e3, e4, e5, e6, e7);
    lemma_first_row("monitor_index"@, decimal(c.monitor_index as nat), t1);
    lemma_first_row("clip_secs"@, decimal(c.clip_secs as nat), t2);
    lemma_first_row("fps"@, decimal(c.fps as nat), t3);
    lemma_first_row("bitrate_mbps"@, decimal(c.bitrate_mbps as nat), t4);
    lemma_first_row("hue"@, hue, t5);
    lemma_first_row("hotkey_mods"@, decimal(c.hotkey_mods as nat), t6);
    lemma_first_row("hotkey_vk"@, decimal(c.hotkey_vk as nat), t7);
    lemma_first_row("bg_image_path"@, c.bg_image_path, t8);
    assert(rows(t8) == seq![t8]);
}

proof fn lemma_first_row(key: Seq<char>, val: Seq<char>, rest: Seq<char>)
    requires
        is_plain_key(key),
        !val.contains('\n'),
    ensures
        rows(entry(key, val) + rest) == seq![key.push('=') + val] + rows(rest),
{
    let line = key.push('=') + val;
    assert(!line.contains('\n')) by {
        if line.contains('\n') {
            let k = choose|k: int| 0 <= k < line.len() && line[k] == '\n';
            if k > key.len() {
                assert(val[k - key.len() - 1] == '\n');
            } else if k < key.len() {
                assert(key[k] == '\n');
            }
        }
    }
    law_rows_of_joined(line, rest);
    law_rows_of_one_line(line);
}

/// The command that starts the program is its path between two quotes and a zero, two bytes for
/// each unit.
pub proof fn law_startup_command_is_quoted(exe: Seq<char>)
    ensures
        ({
            let bytes = startup_command(exe);
            let n = bytes.len() as int;
            &&& n == 2 * utf16(exe).len() + 6
            &&& bytes.take(2) == seq![0x22u8, 0u8]
            &&& bytes.subrange(2, n - 4) == low_byte_first(utf16(exe))
            &&& bytes.skip(n - 4) == seq![0x22u8, 0u8, 0u8, 0u8]
        }),
{
    reveal_strlit("\"");
    let quote = seq!['"'];
    assert("\""@ =~= quote);
    law_utf16_joins(quote + exe, quote);
    law_utf16_joins(quote, exe);
    let one = utf16(quote);
    assert(one =~= seq![0x22u16]) by {
        assert(quote.drop_first() =~= Seq::<char>::empty());
        assert(utf16(quote.drop_first()) =~= Seq::<u16>::empty());
    }
    let all = utf16("\""@ + exe + "\""@).push(0);
    let mid = utf16(exe);
    assert(all =~= (one + mid + one).push(0));
    let bytes = startup_command(exe);
    let n = bytes.len() as int;
    assert(bytes.take(2) =~= seq![0x22u8, 0u8]);
    assert(bytes.subrange(2, n - 4) =~= low_byte_first(mid));
    assert(bytes.skip(n - 4) =~= seq![0x22u8, 0u8, 0u8, 0u8]);
}

/// A hue in tenths of a degree is written as whole degrees, a point and the tenths: its digits
/// without the point are worth the tenths.
pub proof fn law_hue_is_written_in_tenths(tenths: nat)
    ensures
        ({
            let s = hue_words(tenths);
            let n = s.len() as int;
            &&& n >= 3
            &&& s[n - 2] == '.'
            &&& digits_value(s.take(n - 2)) * 10 + (s[n - 1] as int - '0' as int) == tenths
        }),
{
    lemma_hue_words(tenths);
    let s = hue_words(tenths);
    assert(s.drop_last().drop_last() =~= s.take(s.len() - 2));
    assert(decimal(tenths % 10) =~= seq![((48 + tenths % 10) as nat) as char]);
}

/// A line without an `=` gives its key nothing: a number stays as it is, and the background image
/// has no path any more.
pub proof fn law_lines_without_value(start_with_windows: bool, text: Seq<char>, key: Seq<char>)
    requires
        is_plain_key(key),
        key != "hue"@,
    ensures
        ({
            let before = read_back(start_with_windows, text);
            let after = read_back(start_with_windows, text.push('\n') + key);
            &&& key != "bg_image_path"@ ==> after == before
            &&& key == "bg_image_path"@ ==> after == (Loaded {
                config: Config { bg_image_path: Seq::empty(), ..before.config },
                ..before
            })
        }),
{
    assert(!key.contains('\n'));
    law_later_lines_count(start_with_windows, text, key);
    assert(!is_space(key[key.len() - 1]));
    law_trimmed_stays(key);
    lemma_no_equals_sign(key);
    assert(key.take(key.len() as int) =~= key);
    lemma_keys();
}

proof fn lemma_no_equals_sign(line: Seq<char>)
    requires
        forall|i: int| 0 <= i < line.len() ==> #[trigger] line[i] != '=',
    ensures
        equals_sign(line) == line.len(),
    decreases line.len(),
{
    if line.len() > 0 {
        assert(line[0] != '=');
        let rest = line.skip(1);
        assert forall|i: int| 0 <= i < rest.len() implies #[trigger] rest[i] != '=' by {
            assert(rest[i] == line[i + 1]);
        }
        lemma_no_equals_sign(rest);
    }
}

} // verus!
