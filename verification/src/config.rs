//! Configuration: defaults, colors, and where the file is looked for.

use vstd::prelude::*;

verus! {

/// Window chrome and visible-but-not-content settings.
#[derive(Debug, Clone, Copy, PartialEq, Eq, Structural)]
pub struct ChromeConfig {
    /// Flash the screen briefly when the app rings the bell (BEL = 0x07).
    pub visual_bell: bool,
    /// Show the Gator icon in native window chrome where the platform allows.
    pub titlebar_icon: bool,
    /// Padding (logical px) between the window edge and the cell grid.
    pub padding: u32,
}

impl Default for ChromeConfig {
    fn default() -> (c: Self)
        ensures
            c == (ChromeConfig { visual_bell: true, titlebar_icon: true, padding: 0 }),
    {
        ChromeConfig { visual_bell: true, titlebar_icon: true, padding: 0 }
    }
}

/// Compiz-style post-process effects. All default off so the terminal feels
/// normal unless the user opts in. Enabling any of these forces the GPU
/// pipeline into its two-pass mode (off-screen render then effect shader).
#[derive(Debug, Clone, Copy, PartialEq, Eq, Structural)]
pub struct EffectsConfig {
    /// CRT barrel curvature + scanlines (persistent).
    pub crt: bool,
    /// Expanding ring flash centered on each keystroke (animated, ~400ms).
    pub keystroke: bool,
    /// Brief sinusoidal wobble triggered by window resize (~600ms).
    pub wobble: bool,
    /// Page-turn squeeze triggered by alt-screen toggle (~300ms).
    pub cube: bool,
}

impl Default for EffectsConfig {
    fn default() -> (c: Self)
        ensures
            c == (EffectsConfig { crt: false, keystroke: false, wobble: false, cube: false }),
    {
        EffectsConfig { crt: false, keystroke: false, wobble: false, cube: false }
    }
}

impl EffectsConfig {
    pub fn any(&self) -> (on: bool)
        ensures
            on == (self.crt || self.keystroke || self.wobble || self.cube),
    {
        self.crt || self.keystroke || self.wobble || self.cube
    }
}

/// History/session storage. All three are independently opt-in.
#[derive(Debug)]
pub struct SessionConfig {
    /// Raw byte-for-byte session log (one file per launch). Empty = off.
    /// Supports `~` and `{ts}` (unix seconds) substitutions.
    pub raw_log: String,
    /// Plain-text scrollback log (append). Empty = off.
    pub text_log: String,
    /// On startup, preload this many lines from text_log into scrollback.
    /// 0 = no restore. Requires text_log to be set.
    pub restore_lines: usize,
}

impl SessionConfig {
    /// Nothing logged, nothing restored.
    pub open spec fn is_off(self) -> bool {
        self.raw_log@.len() == 0 && self.text_log@.len() == 0 && self.restore_lines == 0
    }
}

impl Default for SessionConfig {
    fn default() -> (c: Self)
        ensures
            c.is_off(),
    {
        SessionConfig { raw_log: String::new(), text_log: String::new(), restore_lines: 0 }
    }
}

/// Font settings. Sizes are held as `f32` bit patterns: the library hands them
/// on and never computes with them.
#[derive(Debug)]
pub struct FontConfig {
    /// Size in points.
    pub size_bits: u32,
    /// Multiplied by the size to get line height.
    pub line_height_bits: u32,
    /// Explicit font file; falls back to system monospace when absent.
    pub path: Option<String>,
}

/// `18.0` as an `f32` bit pattern.
pub const DEFAULT_SIZE_BITS: u32 = 0x4190_0000;

/// `1.3` as an `f32` bit pattern.
pub const DEFAULT_LINE_HEIGHT_BITS: u32 = 0x3FA6_6666;

impl Default for FontConfig {
    fn default() -> (c: Self)
        ensures
            c == (FontConfig {
                size_bits: DEFAULT_SIZE_BITS,
                line_height_bits: DEFAULT_LINE_HEIGHT_BITS,
                path: None,
            }),
    {
        FontConfig {
            size_bits: DEFAULT_SIZE_BITS,
            line_height_bits: DEFAULT_LINE_HEIGHT_BITS,
            path: None,
        }
    }
}

/// `#rgb` or `#rrggbb`, stored as 0x00RRGGBB.
#[derive(Debug, Clone, Copy, PartialEq, Eq, Structural)]
pub struct HexColor(pub u32);

#[derive(Debug, Clone, Copy, PartialEq, Eq, Structural)]
pub struct ColorConfig {
    pub foreground: HexColor,
    pub background: HexColor,
    /// Apply the "bold = bright" convention: when an SGR-bold cell uses one
    /// of the 8 basic palette colors, map it to the bright counterpart so
    /// dark navy / dark green prompts and `ls --color` directories don't
    /// disappear on a dark background.
    pub bold_is_bright: bool,
}

impl Default for ColorConfig {
    fn default() -> (c: Self)
        ensures
            c == (ColorConfig {
                foreground: HexColor(0xDDE6B8),
                background: HexColor(0x08110B),
                bold_is_bright: true,
            }),
    {
        ColorConfig {
            foreground: HexColor(0xDDE6B8),
            background: HexColor(0x08110B),
            bold_is_bright: true,
        }
    }
}

#[derive(Debug, Clone, Copy, PartialEq, Eq, Structural)]
pub struct WindowConfig {
    pub width: u32,
    pub height: u32,
}

impl Default for WindowConfig {
    fn default() -> (c: Self)
        ensures
            c == (WindowConfig { width: 960, height: 600 }),
    {
        WindowConfig { width: 960, height: 600 }
    }
}

#[derive(Debug)]
pub struct Config {
    /// Overrides $SHELL when set.
    pub shell: Option<String>,
    pub scrollback: usize,
    pub font: FontConfig,
    pub colors: ColorConfig,
    pub window: WindowConfig,
    pub session: SessionConfig,
    pub effects: EffectsConfig,
    pub chrome: ChromeConfig,
}

impl Default for Config {
    fn default() -> (c: Self)
        ensures
            c.shell is None,
            c.scrollback == 10_000,
            c.font == (FontConfig {
                size_bits: DEFAULT_SIZE_BITS,
                line_height_bits: DEFAULT_LINE_HEIGHT_BITS,
                path: None,
            }),
            c.colors == (ColorConfig {
                foreground: HexColor(0xDDE6B8),
                background: HexColor(0x08110B),
                bold_is_bright: true,
            }),
            c.window == (WindowConfig { width: 960, height: 600 }),
            c.session.is_off(),
            c.effects == (EffectsConfig {
                crt: false,
                keystroke: false,
                wobble: false,
                cube: false,
            }),
            c.chrome == (ChromeConfig { visual_bell: true, titlebar_icon: true, padding: 0 }),
    {
        Config {
            shell: None,
            scrollback: 10_000,
            font: FontConfig::default(),
            colors: ColorConfig::default(),
            window: WindowConfig::default(),
            session: SessionConfig::default(),
            effects: EffectsConfig::default(),
            chrome: ChromeConfig::default(),
        }
    }
}

// ---- Colors ----

/// Value of a hexadecimal digit, either case.
pub open spec fn hex_digit(c: char) -> Option<int> {
    if '0' <= c <= '9' {
        Some(c as int - '0' as int)
    } else if 'a' <= c <= 'f' {
        Some(c as int - 'a' as int + 10)
    } else if 'A' <= c <= 'F' {
        Some(c as int - 'A' as int + 10)
    } else {
        None
    }
}

/// Value of a run of hexadecimal digits; none where one is not a digit.
pub open spec fn hex_value(digits: Seq<char>) -> Option<int>
    decreases digits.len(),
{
    if digits.len() == 0 {
        Some(0)
    } else {
        match (hex_value(digits.drop_last()), hex_digit(digits.last())) {
            (Some(high), Some(low)) => Some(16 * high + low),
            _ => None,
        }
    }
}

/// Each of the three digits doubled.
pub open spec fn doubled_digits(v: int) -> int {
    (v / 0x100) % 0x10 * 0x110000 + (v / 0x10) % 0x10 * 0x1100 + v % 0x10 * 0x11
}

/// The color that `#rgb` or `#rrggbb` names.
pub open spec fn hex_color(s: Seq<char>) -> Option<int> {
    if s.len() == 0 || s[0] != '#' {
        None
    } else if s.len() == 7 {
        hex_value(s.skip(1))
    } else if s.len() == 4 {
        match hex_value(s.skip(1)) {
            Some(v) => Some(doubled_digits(v)),
            None => None,
        }
    } else {
        None
    }
}

fn digit_value(c: char) -> (v: Option<u32>)
    ensures
        v is Some <==> hex_digit(c) is Some,
        v matches Some(d) ==> Some(d as int) == hex_digit(c) && d < 16,
{
    let n = c as u32;
    if 48 <= n && n <= 57 {
        Some(n - 48)
    } else if 97 <= n && n <= 102 {
        Some(n - 97 + 10)
    } else if 65 <= n && n <= 70 {
        Some(n - 65 + 10)
    } else {
        None
    }
}

/// Where one character is no digit, the whole has no value.
proof fn lemma_no_digit(s: Seq<char>, i: int)
    requires
        0 <= i < s.len(),
        hex_digit(s[i]) is None,
    ensures
        hex_value(s) is None,
    decreases s.len(),
{
    if i < s.len() - 1 {
        assert(s.drop_last()[i] == s[i]);
        lemma_no_digit(s.drop_last(), i);
    }
}

/// The numeral in `chars[from..]`, of at most six digits.
fn parse_digits(chars: &Vec<char>, from: usize) -> (v: Option<u32>)
    requires
        from <= chars@.len() <= from + 6,
    ensures
        v is Some <==> hex_value(chars@.skip(from as int)) is Some,
        v matches Some(n) ==> Some(n as int) == hex_value(chars@.skip(from as int)) && n
            < 0x1000000,
{
    let mut v: u32 = 0;
    let mut i: usize = from;
    let ghost mut bound: int = 1;
    assert(chars@.subrange(from as int, from as int) =~= Seq::empty());
    while i < chars.len()
        invariant
            from <= i <= chars@.len() <= from + 6,
            hex_value(chars@.subrange(from as int, i as int)) == Some(v as int),
            v < bound,
            i == from ==> bound == 1,
            i == from + 1 ==> bound == 0x10,
            i == from + 2 ==> bound == 0x100,
            i == from + 3 ==> bound == 0x1000,
            i == from + 4 ==> bound == 0x10000,
            i == from + 5 ==> bound == 0x100000,
            i == from + 6 ==> bound == 0x1000000,
        decreases chars@.len() - i,
    {
        match digit_value(chars[i]) {
            Some(d) => {
                v = v * 16 + d;
                proof {
                    bound = bound * 16;
                    assert(chars@.subrange(from as int, i + 1).drop_last() =~= chars@.subrange(
                        from as int,
                        i as int,
                    ));
                }
            },
            None => {
                proof {
                    assert(chars@.skip(from as int)[i - from] == chars@[i as int]);
                    lemma_no_digit(chars@.skip(from as int), i - from);
                }
                return None;
            },
        }
        i += 1;
    }
    assert(chars@.subrange(from as int, chars@.len() as int) =~= chars@.skip(from as int));
    Some(v)
}

pub fn parse_hex(s: &str) -> (rgb: Option<u32>)
    ensures
        rgb is Some <==> hex_color(s@) is Some,
        rgb matches Some(v) ==> Some(v as int) == hex_color(s@) && v <= 0xFFFFFF,
{
    let chars = crate::text::chars_of(s);
    if chars.len() == 0 || chars[0] != '#' {
        return None;
    }
    if chars.len() != 7 && chars.len() != 4 {
        return None;
    }
    match parse_digits(&chars, 1) {
        Some(v) => if chars.len() == 7 {
            Some(v)
        } else {
            let r = (v / 0x100) % 0x10;
            let g = (v / 0x10) % 0x10;
            let b = v % 0x10;
            Some(r * 0x110000 + g * 0x1100 + b * 0x11)
        },
        None => None,
    }
}

// ---- Paths ----

/// `~` and a leading `~/` replaced by the home directory.
pub open spec fn home_expanded(s: Seq<char>, home: Seq<char>) -> Seq<char> {
    if s.len() > 0 && s[0] == '~' && (s.len() == 1 || s[1] == '/') {
        home + s.skip(1)
    } else {
        s
    }
}

/// `s` from position `from` on with every `pattern` replaced, left to right.
pub open spec fn replaced_from(
    s: Seq<char>,
    pattern: Seq<char>,
    with: Seq<char>,
    from: int,
) -> Seq<char>
    decreases s.len() - from,
{
    if pattern.len() == 0 || from + pattern.len() > s.len() {
        s.skip(from)
    } else if crate::text::occurs_at(s, pattern, from) {
        with + replaced_from(s, pattern, with, from + pattern.len())
    } else {
        seq![s[from]] + replaced_from(s, pattern, with, from + 1)
    }
}

/// `path` with the home directory and the time stamp filled in.
pub open spec fn expanded(path: Seq<char>, home: Seq<char>, ts: u64) -> Seq<char> {
    replaced_from(
        home_expanded(path, home),
        "{ts}"@,
        crate::text::ascii_chars(crate::text::decimal(ts as nat)),
        0,
    )
}

/// Every `pattern` of `s` replaced, left to right.
fn replace_all(s: &Vec<char>, pattern: &Vec<char>, with: &Vec<char>) -> (out: Vec<char>)
    requires
        pattern@.len() > 0,
    ensures
        out@ == replaced_from(s@, pattern@, with@, 0),
{
    let mut out: Vec<char> = Vec::new();
    let mut from: usize = 0;
    assert(out@ + replaced_from(s@, pattern@, with@, 0) =~= replaced_from(
        s@,
        pattern@,
        with@,
        0,
    ));
    while from <= s.len() && pattern.len() <= s.len() - from
        invariant
            pattern@.len() > 0,
            from <= s@.len(),
            out@ + replaced_from(s@, pattern@, with@, from as int) == replaced_from(
                s@,
                pattern@,
                with@,
                0,
            ),
        decreases s@.len() - from,
    {
        let ghost before = out@;
        if crate::text::stands_at(s, pattern, from) {
            crate::text::push_chars(&mut out, with);
            from += pattern.len();
            assert(before + (with@ + replaced_from(s@, pattern@, with@, from as int)) =~= out@
                + replaced_from(s@, pattern@, with@, from as int));
        } else {
            let ghost c = s@[from as int];
            out.push(s[from]);
            from += 1;
            assert(before + (seq![c] + replaced_from(s@, pattern@, with@, from as int)) =~= out@
                + replaced_from(s@, pattern@, with@, from as int));
        }
    }
    let ghost before = out@;
    let ghost rest = s@.skip(from as int);
    while from < s.len()
        invariant
            from <= s@.len(),
            out@ + s@.skip(from as int) == before + rest,
        decreases s@.len() - from,
    {
        let ghost prior = out@;
        let ghost tail = s@.skip(from as int);
        out.push(s[from]);
        from += 1;
        assert(out@ + s@.skip(from as int) =~= prior + tail);
    }
    assert(out@ + s@.skip(from as int) =~= out@);
    out
}

/// `~` -> the home directory, `{ts}` -> seconds since the epoch as an integer.
pub fn expand_path(s: &str, home: &str, ts: u64) -> (path: String)
    ensures
        path@ == expanded(s@, home@, ts),
{
    let chars = crate::text::chars_of(s);
    let mut out: Vec<char> = Vec::new();
    let mut i: usize = 0;
    if chars.len() > 0 && chars[0] == '~' && (chars.len() == 1 || chars[1] == '/') {
        out = crate::text::chars_of(home);
        i = 1;
    }
    let ghost start = out@;
    let ghost first = i as int;
    while i < chars.len()
        invariant
            first <= i <= chars@.len(),
            0 <= first,
            out@ =~= start + chars@.subrange(first, i as int),
        decreases chars@.len() - i,
    {
        out.push(chars[i]);
        i += 1;
    }
    assert(out@ =~= home_expanded(s@, home@));
    proof {
        reveal_strlit("{ts}");
    }
    let mut stamp = String::new();
    crate::text::push_number(&mut stamp, ts);
    assert(stamp@ =~= crate::text::ascii_chars(crate::text::decimal(ts as nat)));
    let result = replace_all(
        &out,
        &crate::text::chars_of("{ts}"),
        &crate::text::chars_of(stamp.as_str()),
    );
    let len = result.len();
    assert(result@.subrange(0, len as int) =~= result@);
    crate::text::string_of(&result, 0, len)
}

/// `base` and `name` as one path: an absolute name stands by itself.
pub open spec fn joined(base: Seq<char>, name: Seq<char>) -> Seq<char> {
    if name.len() > 0 && name[0] == '/' {
        name
    } else if base.len() > 0 && base.last() != '/' {
        base + "/"@ + name
    } else {
        base + name
    }
}

/// Where an app's configuration lies: below the XDG directory if that is set
/// and not empty, else below `.config` in the home directory, if known.
pub open spec fn config_path(
    app: Seq<char>,
    xdg: Option<Seq<char>>,
    home: Option<Seq<char>>,
) -> Option<Seq<char>> {
    match xdg {
        Some(dir) if dir.len() > 0 => Some(joined(joined(dir, app), "config.toml"@)),
        _ => match home {
            Some(dir) => Some(joined(joined(joined(dir, ".config"@), app), "config.toml"@)),
            None => None,
        },
    }
}

/// The characters of an optional string.
pub open spec fn chars_if(s: Option<&str>) -> Option<Seq<char>> {
    match s {
        Some(t) => Some(t@),
        None => None,
    }
}

fn join(base: Vec<char>, name: &str) -> (path: Vec<char>)
    ensures
        path@ == joined(base@, name@),
{
    let name = crate::text::chars_of(name);
    if name.len() > 0 && name[0] == '/' {
        return name;
    }
    let mut path = base;
    if path.len() > 0 && path[path.len() - 1] != '/' {
        crate::text::push_chars(&mut path, &crate::text::chars_of("/"));
    }
    crate::text::push_chars(&mut path, &name);
    path
}

pub fn config_path_for_app_from_env(
    app: &str,
    xdg_config_home: Option<&str>,
    home: Option<&str>,
) -> (path: Option<String>)
    ensures
        path is Some <==> config_path(app@, chars_if(xdg_config_home), chars_if(home)) is Some,
        path matches Some(p) ==> Some(p@) == config_path(
            app@,
            chars_if(xdg_config_home),
            chars_if(home),
        ),
{
    if let Some(xdg) = xdg_config_home {
        let dir = crate::text::chars_of(xdg);
        if dir.len() > 0 {
            let path = join(join(dir, app), "config.toml");
            let len = path.len();
            assert(path@.subrange(0, len as int) =~= path@);
            return Some(crate::text::string_of(&path, 0, len));
        }
    }
    match home {
        Some(h) => {
            let path = join(
                join(join(crate::text::chars_of(h), ".config"), app),
                "config.toml",
            );
            let len = path.len();
            assert(path@.subrange(0, len as int) =~= path@);
            Some(crate::text::string_of(&path, 0, len))
        },
        None => None,
    }
}

/// The default configuration file, given which candidates exist: the current
/// name first, then the legacy one.
pub fn default_existing_path_from_env(
    xdg_config_home: Option<&str>,
    home: Option<&str>,
    current_exists: bool,
    legacy_exists: bool,
) -> (path: Option<String>)
    ensures
        ({
            let current = config_path("gator"@, chars_if(xdg_config_home), chars_if(home));
            let legacy = config_path("gaterminal"@, chars_if(xdg_config_home), chars_if(home));
            let chosen = if current is Some && current_exists {
                current
            } else if legacy is Some && legacy_exists {
                legacy
            } else {
                None
            };
            &&& path is Some <==> chosen is Some
            &&& path matches Some(p) ==> Some(p@) == chosen
        }),
{
    if current_exists {
        if let Some(path) = config_path_for_app_from_env("gator", xdg_config_home, home) {
            return Some(path);
        }
    }
    if legacy_exists {
        config_path_for_app_from_env("gaterminal", xdg_config_home, home)
    } else {
        None
    }
}

// ---- The command line ----

/// What the command line asks for.
#[derive(Debug)]
pub struct Args {
    /// The argument after the first `--config`.
    pub config: Option<String>,
    /// The crossterm renderer instead of a window.
    pub tui: bool,
}

/// Does `args[i]` read `word`?
pub open spec fn reads(args: Seq<String>, i: int, word: Seq<char>) -> bool {
    0 <= i < args.len() && args[i]@ == word
}

/// Is `i` the first argument that reads `word`?
pub open spec fn first_reading(args: Seq<String>, i: int, word: Seq<char>) -> bool {
    reads(args, i, word) && forall|k: int| 0 <= k < i ==> !#[trigger] reads(args, k, word)
}

/// First argument that reads `word`, or the number of arguments.
fn position(args: &Vec<String>, word: &str) -> (at: usize)
    ensures
        at <= args@.len(),
        at < args@.len() ==> first_reading(args@, at as int, word@),
        at == args@.len() ==> forall|k: int| !#[trigger] reads(args@, k, word@),
{
    let sought = crate::text::chars_of(word);
    let mut i: usize = 0;
    while i < args.len()
        invariant
            i <= args@.len(),
            sought@ == word@,
            forall|k: int| 0 <= k < i ==> !#[trigger] reads(args@, k, word@),
        decreases args@.len() - i,
    {
        if crate::text::same_chars(&crate::text::chars_of(args[i].as_str()), &sought) {
            return i;
        }
        i += 1;
    }
    i
}

/// Read the command line: `--config <path>` and `--tui`.
pub fn parse_args(args: &Vec<String>) -> (parsed: Args)
    ensures
        parsed.tui <==> exists|i: int| #[trigger] reads(args@, i, "--tui"@),
        parsed.config is Some <==> exists|i: int|
            #[trigger] first_reading(args@, i, "--config"@) && i + 1 < args@.len(),
        parsed.config matches Some(path) ==> exists|i: int|
            #[trigger] first_reading(args@, i, "--config"@) && i + 1 < args@.len() && path@
                == args@[i + 1]@,
{
    let at = position(args, "--config");
    let mut config: Option<String> = None;
    if at < args.len() && at + 1 < args.len() {
        let chars = crate::text::chars_of(args[at + 1].as_str());
        let len = chars.len();
        assert(chars@.subrange(0, len as int) =~= chars@);
        config = Some(crate::text::string_of(&chars, 0, len));
        assert(first_reading(args@, at as int, "--config"@));
    } else {
        proof {
            assert forall|i: int| #[trigger] first_reading(args@, i, "--config"@) implies i + 1
                >= args@.len() by {
                assert(reads(args@, i, "--config"@));
                if at < args@.len() {
                    assert(reads(args@, at as int, "--config"@));
                }
            }
        }
    }
    let tui_at = position(args, "--tui");
    if tui_at < args.len() {
        assert(reads(args@, tui_at as int, "--tui"@));
    }
    Args { config, tui: tui_at < args.len() }
}

/// The shell to run: the configured one, else that of the environment, else
/// `/bin/sh`.
pub fn choose_shell(configured: Option<String>, environment: Option<String>) -> (shell: String)
    ensures
        shell@ == match configured {
            Some(s) => s@,
            None => match environment {
                Some(s) => s@,
                None => "/bin/sh"@,
            },
        },
{
    if let Some(s) = configured {
        return s;
    }
    if let Some(s) = environment {
        return s;
    }
    let chars = crate::text::chars_of("/bin/sh");
    let len = chars.len();
    assert(chars@.subrange(0, len as int) =~= chars@);
    crate::text::string_of(&chars, 0, len)
}

// ---- What holds of every configuration ----

/// A color is `#` followed by exactly three or exactly six hexadecimal digits,
/// and nothing else is one; its value fits in three bytes.
pub proof fn law_color_format(s: Seq<char>)
    ensures
        hex_color(s) is Some <==> (s.len() == 4 || s.len() == 7) && s[0] == '#' && (forall|i: int|
            1 <= i < s.len() ==> hex_digit(#[trigger] s[i]) is Some),
        hex_color(s) matches Some(v) ==> 0 <= v <= 0xFFFFFF,
{
    let digits = s.skip(1);
    if s.len() == 4 || s.len() == 7 {
        if forall|i: int| 1 <= i < s.len() ==> hex_digit(#[trigger] s[i]) is Some {
            assert forall|i: int| 0 <= i < digits.len() implies hex_digit(
                #[trigger] digits[i],
            ) is Some by {
                assert(digits[i] == s[i + 1]);
            }
            lemma_all_digits(digits);
            reveal_with_fuel(hex_bound, 7);
        } else {
            let i = choose|i: int| 1 <= i < s.len() && hex_digit(#[trigger] s[i]) is None;
            assert(digits[i - 1] == s[i]);
            lemma_no_digit(digits, i - 1);
        }
    }
}

/// Number of values that `n` hexadecimal digits can take.
spec fn hex_bound(n: nat) -> int
    decreases n,
{
    if n == 0 {
        1
    } else {
        16 * hex_bound((n - 1) as nat)
    }
}

proof fn lemma_all_digits(s: Seq<char>)
    requires
        forall|i: int| 0 <= i < s.len() ==> hex_digit(#[trigger] s[i]) is Some,
    ensures
        hex_value(s) is Some,
        0 <= hex_value(s)->0 < hex_bound(s.len()),
    decreases s.len(),
{
    if s.len() > 0 {
        lemma_all_digits(s.drop_last());
        assert(s.last() == s[s.len() - 1]);
    }
}

/// A three-digit color is the six-digit one with each digit doubled.
pub proof fn law_short_hex_doubles(r: char, g: char, b: char)
    requires
        hex_digit(r) is Some,
        hex_digit(g) is Some,
        hex_digit(b) is Some,
    ensures
        hex_color(seq!['#', r, g, b]) == hex_color(seq!['#', r, r, g, g, b, b]),
        hex_color(seq!['#', r, g, b]) is Some,
{
    let e = Seq::<char>::empty();
    lemma_hex_push(e, r);
    lemma_hex_push(e.push(r), g);
    lemma_hex_push(e.push(r).push(g), b);
    lemma_hex_push(e.push(r), r);
    lemma_hex_push(e.push(r).push(r), g);
    lemma_hex_push(e.push(r).push(r).push(g), g);
    lemma_hex_push(e.push(r).push(r).push(g).push(g), b);
    lemma_hex_push(e.push(r).push(r).push(g).push(g).push(b), b);
    assert(seq!['#', r, g, b].skip(1) =~= e.push(r).push(g).push(b));
    assert(seq!['#', r, r, g, g, b, b].skip(1) =~= e.push(r).push(r).push(g).push(g).push(b).push(
        b,
    ));
    let (x, y, z) = (hex_digit(r)->0, hex_digit(g)->0, hex_digit(b)->0);
    let v = 16 * (16 * x + y) + z;
    assert((v / 0x100) % 0x10 == x && (v / 0x10) % 0x10 == y && v % 0x10 == z) by {
        assert(v / 0x10 == 16 * x + y);
        assert(v / 0x100 == x);
    }
}

proof fn lemma_hex_push(s: Seq<char>, c: char)
    requires
        hex_value(s) is Some,
        hex_digit(c) is Some,
    ensures
        hex_value(s.push(c)) == Some(16 * hex_value(s)->0 + hex_digit(c)->0),
{
    assert(s.push(c).drop_last() =~= s);
}

/// A path without a time stamp to fill in is left as it is.
proof fn lemma_nothing_replaced(path: Seq<char>, with: Seq<char>, from: int)
    requires
        0 <= from <= path.len(),
        forall|i: int| !#[trigger] crate::text::occurs_at(path, "{ts}"@, i),
    ensures
        replaced_from(path, "{ts}"@, with, from) == path.skip(from),
    decreases path.len() - from,
{
    reveal_strlit("{ts}");
    if from + "{ts}"@.len() <= path.len() {
        lemma_nothing_replaced(path, with, from + 1);
        assert(seq![path[from]] + path.skip(from + 1) =~= path.skip(from));
    }
}

/// A path without `~` at its front and without `{ts}` is left as it is.
pub proof fn law_plain_path_unchanged(path: Seq<char>, home: Seq<char>, ts: u64)
    requires
        path.len() > 0 ==> path[0] != '~',
        forall|i: int| !#[trigger] crate::text::occurs_at(path, "{ts}"@, i),
    ensures
        expanded(path, home, ts) == path,
{
    lemma_nothing_replaced(
        path,
        crate::text::ascii_chars(crate::text::decimal(ts as nat)),
        0,
    );
    assert(path.skip(0) =~= path);
}

/// The sixteen digits, in either case.
pub proof fn law_hex_digits(c: char, v: int)
    requires
        0 <= v < 16,
    ensures
        hex_digit(c) == Some(v) <==> c == "0123456789abcdef"@[v] || c == "0123456789ABCDEF"@[v],
{
    reveal_strlit("0123456789abcdef");
    reveal_strlit("0123456789ABCDEF");
    let (l, u) = ("0123456789abcdef"@, "0123456789ABCDEF"@);
    assert(l[0] == '0' && l[1] == '1' && l[2] == '2' && l[3] == '3' && l[4] == '4' && l[5] == '5'
        && l[6] == '6' && l[7] == '7' && l[8] == '8' && l[9] == '9' && l[10] == 'a' && l[11] == 'b'
        && l[12] == 'c' && l[13] == 'd' && l[14] == 'e' && l[15] == 'f');
    assert(u[0] == '0' && u[1] == '1' && u[2] == '2' && u[3] == '3' && u[4] == '4' && u[5] == '5'
        && u[6] == '6' && u[7] == '7' && u[8] == '8' && u[9] == '9' && u[10] == 'A' && u[11] == 'B'
        && u[12] == 'C' && u[13] == 'D' && u[14] == 'E' && u[15] == 'F');
}

/// Six digits are the bytes of red, green and blue, the high digit of each
/// first.
pub proof fn law_color_value(a: char, b: char, c: char, d: char, e: char, f: char)
    requires
        hex_digit(a) is Some,
        hex_digit(b) is Some,
        hex_digit(c) is Some,
        hex_digit(d) is Some,
        hex_digit(e) is Some,
        hex_digit(f) is Some,
    ensures
        hex_color(seq!['#', a, b, c, d, e, f]) == Some(
            (16 * hex_digit(a)->0 + hex_digit(b)->0) * 0x10000 + (16 * hex_digit(c)->0 + hex_digit(
                d,
            )->0) * 0x100 + (16 * hex_digit(e)->0 + hex_digit(f)->0),
        ),
{
    let none = Seq::<char>::empty();
    lemma_hex_push(none, a);
    lemma_hex_push(none.push(a), b);
    lemma_hex_push(none.push(a).push(b), c);
    lemma_hex_push(none.push(a).push(b).push(c), d);
    lemma_hex_push(none.push(a).push(b).push(c).push(d), e);
    lemma_hex_push(none.push(a).push(b).push(c).push(d).push(e), f);
    assert(seq!['#', a, b, c, d, e, f].skip(1) =~= none.push(a).push(b).push(c).push(d).push(
        e,
    ).push(f));
}

/// A tilde that stands alone or before a slash at the front of a path is the
/// home directory; no other tilde is.
pub proof fn law_home(rest: Seq<char>, path: Seq<char>, home: Seq<char>)
    ensures
        home_expanded(seq!['~'], home) == home,
        home_expanded(seq!['~', '/'] + rest, home) == home + seq!['/'] + rest,
        path.len() == 0 || path[0] != '~' || (path.len() > 1 && path[1] != '/') ==> home_expanded(
            path,
            home,
        ) == path,
{
    assert(home_expanded(seq!['~'], home) =~= home);
    assert(home_expanded(seq!['~', '/'] + rest, home) =~= home + seq!['/'] + rest);
}

/// What lies before has no say in what is replaced after it.
proof fn lemma_replaced_shift(
    head: Seq<char>,
    rest: Seq<char>,
    pattern: Seq<char>,
    with: Seq<char>,
    from: int,
)
    requires
        0 <= from <= rest.len(),
    ensures
        replaced_from(head + rest, pattern, with, head.len() + from) == replaced_from(
            rest,
            pattern,
            with,
            from,
        ),
    decreases rest.len() - from,
{
    let whole = head + rest;
    let k = head.len() as int;
    if pattern.len() == 0 || from + pattern.len() > rest.len() {
        assert(whole.skip(k + from) =~= rest.skip(from));
    } else {
        assert(whole.subrange(k + from, k + from + pattern.len()) =~= rest.subrange(
            from,
            from + pattern.len(),
        ));
        if crate::text::occurs_at(rest, pattern, from) {
            lemma_replaced_shift(head, rest, pattern, with, from + pattern.len());
        } else {
            lemma_replaced_shift(head, rest, pattern, with, from + 1);
        }
    }
}

proof fn lemma_replaced_prefix(
    head: Seq<char>,
    rest: Seq<char>,
    pattern: Seq<char>,
    with: Seq<char>,
    from: int,
)
    requires
        pattern.len() > 0,
        0 <= from <= head.len(),
        forall|i: int|
            0 <= i < head.len() ==> !#[trigger] crate::text::occurs_at(
                head + pattern + rest,
                pattern,
                i,
            ),
    ensures
        replaced_from(head + pattern + rest, pattern, with, from) == head.skip(from) + with
            + replaced_from(rest, pattern, with, 0),
    decreases head.len() - from,
{
    let whole = head + pattern + rest;
    let tail = with + replaced_from(rest, pattern, with, 0);
    if from < head.len() {
        assert(!crate::text::occurs_at(whole, pattern, from));
        lemma_replaced_prefix(head, rest, pattern, with, from + 1);
        assert(seq![whole[from]] + (head.skip(from + 1) + with + replaced_from(
            rest,
            pattern,
            with,
            0,
        )) =~= head.skip(from) + with + replaced_from(rest, pattern, with, 0));
    } else {
        assert(whole.subrange(from, from + pattern.len()) =~= pattern);
        assert(crate::text::occurs_at(whole, pattern, from));
        lemma_replaced_shift(head + pattern, rest, pattern, with, 0);
        assert(head.skip(from) + with + replaced_from(rest, pattern, with, 0) =~= tail);
    }
}

/// Each `{ts}` of a path becomes the time stamp in decimal: the first of them,
/// and so on in what follows it.
pub proof fn law_time_stamps(head: Seq<char>, rest: Seq<char>, home: Seq<char>, ts: u64)
    requires
        head.len() > 0 ==> head[0] != '~',
        rest.len() > 0 ==> rest[0] != '~',
        forall|i: int|
            0 <= i < head.len() ==> !#[trigger] crate::text::occurs_at(
                head + "{ts}"@ + rest,
                "{ts}"@,
                i,
            ),
    ensures
        expanded(head + "{ts}"@ + rest, home, ts) == head + crate::text::ascii_chars(
            crate::text::decimal(ts as nat),
        ) + expanded(rest, home, ts),
{
    reveal_strlit("{ts}");
    let stamp = crate::text::ascii_chars(crate::text::decimal(ts as nat));
    lemma_replaced_prefix(head, rest, "{ts}"@, stamp, 0);
    assert(head.skip(0) =~= head);
    assert((head + "{ts}"@ + rest)[0] == if head.len() > 0 {
        head[0]
    } else {
        '{'
    });
}

/// Two parts of a path are joined by exactly one slash; an absolute part stands
/// by itself.
pub proof fn law_joined_path(base: Seq<char>, name: Seq<char>)
    requires
        base.len() > 0,
    ensures
        name.len() > 0 && name[0] == '/' ==> joined(base, name) == name,
        (name.len() == 0 || name[0] != '/') && base.last() == '/' ==> joined(base, name) == base
            + name,
        (name.len() == 0 || name[0] != '/') && base.last() != '/' ==> joined(base, name)
            == base.push('/') + name,
{
    reveal_strlit("/");
    assert(base + "/"@ =~= base.push('/'));
}

/// The configuration lies in `<xdg>/<app>/config.toml`, or, while that
/// directory is not set or empty, in `<home>/.config/<app>/config.toml`;
/// without either there is none.
pub proof fn law_config_path(
    app: Seq<char>,
    xdg: Option<Seq<char>>,
    home: Option<Seq<char>>,
    dir: Seq<char>,
)
    requires
        app.len() > 0,
        app[0] != '/',
        app.last() != '/',
        dir.len() > 0,
        dir.last() != '/',
    ensures
        ({
            let unset = xdg is None || xdg->0.len() == 0;
            let path = config_path(app, xdg, home);
            &&& xdg == Some(dir) ==> path == Some(dir + "/"@ + app + "/config.toml"@)
            &&& unset && home == Some(dir) ==> path == Some(
                dir + "/.config/"@ + app + "/config.toml"@,
            )
            &&& unset && home is None ==> path is None
        }),
{
    reveal_strlit("/");
    reveal_strlit("/config.toml");
    reveal_strlit("config.toml");
    reveal_strlit(".config");
    reveal_strlit("/.config/");
    let a = joined(dir, app);
    assert(a =~= dir + "/"@ + app);
    assert(a.last() == app.last());
    assert(joined(a, "config.toml"@) =~= dir + "/"@ + app + "/config.toml"@);
    let b = joined(dir, ".config"@);
    assert(b =~= dir + "/"@ + ".config"@);
    let c = joined(b, app);
    assert(b.last() == 'g');
    assert(c =~= dir + "/.config/"@ + app);
    assert(c.last() == app.last());
    assert(joined(c, "config.toml"@) =~= dir + "/.config/"@ + app + "/config.toml"@);
}

} // verus!
