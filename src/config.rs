use vstd::prelude::*;

use crate::color::{Color, SegmentColoring};
use crate::segments::constant::Constant;
use crate::segments::program_output::ProgramOutput;
use crate::segments::{text_or, BuiltinKind, Segment};
use crate::signals::{offsets_in_range, resolved_signals};

verus! {

/// Settings that apply to every segment of a configuration.
pub struct Configuration {
    /// The directory that script paths are relative to; empty for none.
    pub script_dir: String,
    /// The signal offset that refreshes every segment, if any.
    pub update_all_signal: Option<u32>,
    /// Default colors.
    pub coloring: SegmentColoring,
    /// Default left separator.
    pub left_separator: Option<String>,
    /// Default right separator.
    pub right_separator: Option<String>,
}

impl Default for Configuration {
    fn default() -> (r: Configuration)
        ensures
            r.script_dir@.len() == 0,
            r.update_all_signal is None,
            r.coloring == SegmentColoring::uncolored(),
            r.left_separator is None,
            r.right_separator is None,
    {
        Configuration {
            script_dir: String::new(),
            update_all_signal: None,
            coloring: SegmentColoring::default(),
            left_separator: None,
            right_separator: None,
        }
    }
}

/// Where a configured segment takes its value from.
pub enum SegmentKindConfig {
    /// A program, started with the arguments.
    Program { program: String, args: Vec<String>, trim: bool },
    /// A shell script in the script directory, run by `/bin/sh`.
    ShellScript { script: String, args: Vec<String>, trim: bool },
    /// A fixed text.
    Constant { constant: String },
}

/// The color names that a segment, or the configuration, sets.
pub struct SegmentColorConfig {
    pub text_color: Option<String>,
    pub left_separator_color: Option<String>,
    pub right_separator_color: Option<String>,
    pub icon_color: Option<String>,
}

/// One segment as a configuration describes it.
pub struct SegmentConfig {
    pub kind: SegmentKindConfig,
    /// Seconds between refreshes.
    pub update_interval: Option<u64>,
    /// Signal offsets that refresh the segment.
    pub signals: Vec<u32>,
    pub left_separator: Option<String>,
    pub right_separator: Option<String>,
    pub icon: Option<String>,
    pub hide_if_empty: bool,
    pub coloring: SegmentColorConfig,
}

/// A whole configuration: its segments and the settings they share.
pub struct ConfigFile {
    pub segments: Vec<SegmentConfig>,
    pub left_separator: Option<String>,
    pub right_separator: Option<String>,
    pub update_all_signal: Option<u32>,
    pub script_dir: Option<String>,
    /// Color names and the colors they stand for.
    pub colors: Vec<(String, Color)>,
    pub coloring: SegmentColorConfig,
}

/// The color that `name` stands for: the first entry of that name.
pub open spec fn lookup_color(colors: Seq<(String, Color)>, name: Seq<char>) -> Option<Color>
    decreases colors.len(),
{
    if colors.len() == 0 {
        None
    } else if colors[0].0@ == name {
        Some(colors[0].1)
    } else {
        lookup_color(colors.drop_first(), name)
    }
}

/// The color that a setting gives: none for no setting, the named color for
/// a name, and `None` for an unknown name.
pub open spec fn setting_color(colors: Seq<(String, Color)>, setting: Option<String>) -> Option<
    Color,
> {
    match setting {
        None => Some(Color::Uncolored),
        Some(name) => lookup_color(colors, name@),
    }
}

/// Every color setting of `c` names a known color.
pub open spec fn colors_known(colors: Seq<(String, Color)>, c: SegmentColorConfig) -> bool {
    &&& setting_color(colors, c.text_color) is Some
    &&& setting_color(colors, c.left_separator_color) is Some
    &&& setting_color(colors, c.right_separator_color) is Some
    &&& setting_color(colors, c.icon_color) is Some
}

/// The coloring that the settings of `c` give, where all names are known.
pub open spec fn coloring_of(colors: Seq<(String, Color)>, c: SegmentColorConfig) -> SegmentColoring {
    SegmentColoring {
        text: setting_color(colors, c.text_color).unwrap(),
        left_separator: setting_color(colors, c.left_separator_color).unwrap(),
        right_separator: setting_color(colors, c.right_separator_color).unwrap(),
        icon: setting_color(colors, c.icon_color).unwrap(),
    }
}

/// Seconds as milliseconds, held at the largest `u64` where they do not fit.
pub open spec fn millis_of(secs: u64) -> u64 {
    if secs * 1000 > u64::MAX {
        u64::MAX
    } else {
        (secs * 1000) as u64
    }
}

/// The signal offsets of a segment: its own, then the one that refreshes
/// every segment.
pub open spec fn segment_offsets(own: Seq<u32>, update_all: Option<u32>) -> Seq<u32> {
    match update_all {
        Some(o) => own.push(o),
        None => own,
    }
}

/// A path that shell expansion leaves as it is: no variable and no leading
/// tilde.
pub open spec fn is_plain_path(path: Seq<char>) -> bool {
    !path.contains('$') && !(path.len() > 0 && path[0] == '~')
}

/// Relies on `shellexpand::full`: it expands `~` and environment variables,
/// and returns a path with neither unchanged. Its error is turned into its
/// message.
#[verifier::external_body]
fn expand_path(path: &str) -> (r: Result<String, String>)
    ensures
        is_plain_path(path@) ==> r is Ok && r->Ok_0@ == path@,
{
    shellexpand::full(path).map(|p| p.into_owned()).map_err(|e| e.to_string())
}

/// What `PathBuf::push` makes of `path` pushed onto `dir`.
pub uninterp spec fn path_joined(dir: Seq<char>, path: Seq<char>) -> Seq<char>;

/// Relies on `PathBuf::push`: `path` below `dir`, or `path` itself when it is
/// absolute.
#[verifier::external_body]
fn join_path(dir: &str, path: &str) -> (r: String)
    ensures
        r@ == path_joined(dir@, path@),
        path@.len() > 0 && path@[0] == '/' ==> r@ == path@,
{
    let mut joined = std::path::PathBuf::from(dir);
    joined.push(path);
    joined.to_string_lossy().into_owned()
}

/// The color named by `c`, uncolored when there is no name. `Err` for a
/// name with no color.
pub fn color_lookup(c: Option<String>, mapping: &Vec<(String, Color)>) -> (r: Result<Color, String>)
    ensures
        r is Ok <==> setting_color(mapping@, c) is Some,
        r matches Ok(color) ==> setting_color(mapping@, c) == Some(color),
        r matches Err(e) ==> c is Some && e@ == "undefined color: "@ + c->Some_0@,
{
    match c {
        None => Ok(Color::Uncolored),
        Some(name) => {
            let mut i: usize = 0;
            assert(mapping@.subrange(0, mapping@.len() as int) == mapping@);
            while i < mapping.len()
                invariant
                    i <= mapping@.len(),
                    c == Some(name),
                    lookup_color(mapping@, name@) == lookup_color(
                        mapping@.subrange(i as int, mapping@.len() as int),
                        name@,
                    ),
                decreases mapping@.len() - i,
            {
                let ghost rest = mapping@.subrange(i as int, mapping@.len() as int);
                assert(rest.drop_first() == mapping@.subrange(i + 1, mapping@.len() as int));
                assert(rest[0] == mapping@[i as int]);
                if mapping[i].0 == name {
                    assert(lookup_color(rest, name@) == Some(mapping@[i as int].1));
                    return Ok(mapping[i].1);
                }
                i = i + 1;
            }
            let prefix = "undefined color: ";
            let mut message = String::from_str(prefix);
            message.append(name.as_str());
            Err(message)
        },
    }
}

impl SegmentColoring {
    /// The coloring that the color names of `c` give. `Err` when one of them
    /// names no color.
    pub fn from(c: SegmentColorConfig, mapping: &Vec<(String, Color)>) -> (r: Result<
        SegmentColoring,
        String,
    >)
        ensures
            r is Ok <==> colors_known(mapping@, c),
            r matches Ok(coloring) ==> coloring == coloring_of(mapping@, c),
    {
        let ghost spec_c = c;
        let SegmentColorConfig { text_color, left_separator_color, right_separator_color, icon_color } =
            c;
        let text = match color_lookup(text_color, mapping) {
            Ok(color) => color,
            Err(e) => return Err(e),
        };
        let left_separator = match color_lookup(left_separator_color, mapping) {
            Ok(color) => color,
            Err(e) => return Err(e),
        };
        let right_separator = match color_lookup(right_separator_color, mapping) {
            Ok(color) => color,
            Err(e) => return Err(e),
        };
        let icon = match color_lookup(icon_color, mapping) {
            Ok(color) => color,
            Err(e) => return Err(e),
        };
        Ok(SegmentColoring { text, left_separator, right_separator, icon })
    }
}

/// The refresh interval in milliseconds for a setting in seconds.
pub open spec fn interval_millis(secs: Option<u64>) -> Option<u64> {
    match secs {
        Some(s) => Some(millis_of(s)),
        None => None,
    }
}

/// `kind` is the value source that `config` describes, with scripts found in
/// `script_dir`. A path is taken as written where shell expansion leaves it
/// unchanged; otherwise it is whatever the expansion gave.
pub open spec fn kind_matches(config: SegmentKindConfig, script_dir: Seq<char>, kind: BuiltinKind) -> bool {
    match config {
        SegmentKindConfig::Constant { constant } => kind matches BuiltinKind::Constant(c)
            && c.spec_text() == constant@,
        SegmentKindConfig::Program { program, args, trim } => kind matches BuiltinKind::ProgramOutput(p)
            && p.spec_args() == args@ && p.spec_trim() == trim && (is_plain_path(program@)
            ==> p.spec_program() == program@),
        SegmentKindConfig::ShellScript { script, args, trim } => kind matches BuiltinKind::ProgramOutput(p)
            && p.spec_program() == "/bin/sh"@ && p.spec_trim() == trim && p.spec_args().len() == args@.len()
            + 1 && p.spec_args().drop_first() == args@ && (is_plain_path(script@)
            ==> p.spec_args()[0]@ == path_joined(script_dir, script@)),
    }
}

/// The paths of the value source that `config` describes need no shell
/// expansion.
pub open spec fn kind_is_plain(config: SegmentKindConfig) -> bool {
    match config {
        SegmentKindConfig::Constant { .. } => true,
        SegmentKindConfig::Program { program, .. } => is_plain_path(program@),
        SegmentKindConfig::ShellScript { script, .. } => is_plain_path(script@),
    }
}

/// `segment` is what `sc` describes under the shared settings `config` and
/// the color names `colors`.
pub open spec fn parsed_as(
    sc: SegmentConfig,
    config: Configuration,
    colors: Seq<(String, Color)>,
    segment: Segment<BuiltinKind>,
) -> bool {
    let offsets = segment_offsets(sc.signals@, config.update_all_signal);
    &&& kind_matches(sc.kind, config.script_dir@, segment.kind)
    &&& segment.update_interval == interval_millis(sc.update_interval)
    &&& segment.left_separator@ == text_or(sc.left_separator, config.left_separator)
    &&& segment.right_separator@ == text_or(sc.right_separator, config.right_separator)
    &&& segment.icon@ == text_or(sc.icon, None)
    &&& segment.hide_if_empty == sc.hide_if_empty
    &&& colors_known(colors, sc.coloring)
    &&& segment.coloring == coloring_of(colors, sc.coloring).spec_or_default(config.coloring)
    &&& exists|lo: i32, hi: i32|
        offsets_in_range(offsets, lo, hi) && resolved_signals(segment.signals@, offsets, lo)
}

/// Seconds as milliseconds, held at the largest `u64` where they do not fit.
fn secs_to_millis(secs: u64) -> (r: u64)
    ensures
        r == millis_of(secs),
{
    match secs.checked_mul(1000) {
        Some(ms) => ms,
        None => u64::MAX,
    }
}

/// The value source that `kind` describes.
fn parse_kind(kind: SegmentKindConfig, config: &Configuration) -> (r: Result<BuiltinKind, String>)
    ensures
        r matches Ok(k) ==> kind_matches(kind, config.script_dir@, k),
        kind_is_plain(kind) ==> r is Ok,
{
    match kind {
        SegmentKindConfig::Program { program, args, trim } => {
            let program = match expand_path(program.as_str()) {
                Ok(p) => p,
                Err(e) => return Err(e),
            };
            Ok(BuiltinKind::ProgramOutput(ProgramOutput::new(program, args, trim)))
        },
        SegmentKindConfig::ShellScript { script, args, trim } => {
            let script = match expand_path(script.as_str()) {
                Ok(s) => s,
                Err(e) => return Err(e),
            };
            let script_path = join_path(config.script_dir.as_str(), script.as_str());
            let ghost given = args@;
            let mut args = args;
            args.insert(0, script_path);
            assert(args@.drop_first() == given);
            Ok(BuiltinKind::ProgramOutput(ProgramOutput::new(String::from_str("/bin/sh"), args, trim)))
        },
        SegmentKindConfig::Constant { constant } => Ok(BuiltinKind::Constant(Constant::new(constant))),
    }
}

/// The segment that `segment_config` describes, with the shared settings of
/// `config` and the color names of `colors`. `Err` when a color name is
/// unknown, a path cannot be expanded, or a signal lies past the last
/// real-time signal of the process.
pub fn parse_segment(
    segment_config: SegmentConfig,
    config: &Configuration,
    colors: &Vec<(String, Color)>,
) -> (r: Result<Segment<BuiltinKind>, String>)
    ensures
        r matches Ok(s) ==> parsed_as(segment_config, *config, colors@, s),
        !colors_known(colors@, segment_config.coloring) ==> r is Err,
        colors_known(colors@, segment_config.coloring) && kind_is_plain(segment_config.kind)
            && segment_offsets(segment_config.signals@, config.update_all_signal).len() == 0 ==> r is Ok,
{
    let ghost sc = segment_config;
    let SegmentConfig {
        kind,
        update_interval,
        signals,
        left_separator,
        right_separator,
        icon,
        hide_if_empty,
        coloring,
    } = segment_config;
    let kind = match parse_kind(kind, config) {
        Ok(k) => k,
        Err(e) => return Err(e),
    };
    let coloring = match SegmentColoring::from(coloring, colors) {
        Ok(c) => c,
        Err(e) => return Err(e),
    };
    let mut signals = signals;
    match config.update_all_signal {
        Some(offset) => signals.push(offset),
        None => {},
    }
    assert(signals@ == segment_offsets(sc.signals@, config.update_all_signal));
    let update_interval = match update_interval {
        Some(secs) => Some(secs_to_millis(secs)),
        None => None,
    };
    Segment::new_from_config(
        kind,
        update_interval,
        signals,
        left_separator,
        right_separator,
        icon,
        hide_if_empty,
        coloring,
        config,
    )
}

/// The script directory that a configuration names, shell-expanded; empty
/// when it names none.
pub fn resolve_script_dir(script_dir: Option<String>) -> (r: Result<String, String>)
    ensures
        script_dir is None ==> r is Ok && r->Ok_0@.len() == 0,
        script_dir matches Some(d) ==> (is_plain_path(d@) ==> r is Ok && r->Ok_0@ == d@),
{
    match script_dir {
        Some(dir) => expand_path(dir.as_str()),
        None => Ok(String::new()),
    }
}

/// The shared settings of `file`, with scripts found in `script_dir`.
pub open spec fn shared_settings(file: ConfigFile, script_dir: String) -> Configuration {
    Configuration {
        script_dir,
        update_all_signal: file.update_all_signal,
        coloring: coloring_of(file.colors@, file.coloring),
        left_separator: file.left_separator,
        right_separator: file.right_separator,
    }
}

/// Every segment of `file` can be built without shell expansion and without
/// signals.
pub open spec fn segments_plain(file: ConfigFile) -> bool {
    &&& file.update_all_signal is None
    &&& forall|i: int| 0 <= i < file.segments@.len() ==> {
        &&& kind_is_plain(#[trigger] file.segments@[i].kind)
        &&& file.segments@[i].signals@.len() == 0
    }
}

/// Every color name in `file` is known.
pub open spec fn all_colors_known(file: ConfigFile) -> bool {
    &&& colors_known(file.colors@, file.coloring)
    &&& forall|i: int|
        0 <= i < file.segments@.len() ==> colors_known(
            file.colors@,
            #[trigger] file.segments@[i].coloring,
        )
}

/// The segments that `file` describes, in order, with scripts found in
/// `script_dir` (already expanded). `Err` when a color name is unknown, a
/// path cannot be expanded, or a signal lies past the last real-time signal
/// of the process.
pub fn build_segments(file: ConfigFile, script_dir: String) -> (r: Result<Vec<Segment<BuiltinKind>>, String>)
    ensures
        r matches Ok(v) ==> {
            &&& colors_known(file.colors@, file.coloring)
            &&& v@.len() == file.segments@.len()
            &&& forall|i: int| 0 <= i < v@.len() ==> parsed_as(
                #[trigger] file.segments@[i],
                shared_settings(file, script_dir),
                file.colors@,
                v@[i],
            )
        },
        !all_colors_known(file) ==> r is Err,
        all_colors_known(file) && segments_plain(file) ==> r is Ok,
{
    let ghost spec_file = file;
    let ConfigFile {
        segments,
        left_separator,
        right_separator,
        update_all_signal,
        script_dir: _,
        colors,
        coloring,
    } = file;
    let coloring = match SegmentColoring::from(coloring, &colors) {
        Ok(c) => c,
        Err(e) => return Err(e),
    };
    let config = Configuration { script_dir, update_all_signal, coloring, left_separator, right_separator };
    assert(config == shared_settings(spec_file, script_dir));
    let mut rest = segments;
    let mut built: Vec<Segment<BuiltinKind>> = Vec::new();
    let ghost all = spec_file.segments@;
    while rest.len() > 0
        invariant
            spec_file == file,
            config == shared_settings(spec_file, script_dir),
            colors@ == spec_file.colors@,
            all == spec_file.segments@,
            colors_known(colors@, spec_file.coloring),
            built@.len() + rest@.len() == all.len(),
            rest@ == all.subrange(built@.len() as int, all.len() as int),
            forall|i: int| 0 <= i < built@.len() ==> parsed_as(
                #[trigger] all[i],
                config,
                colors@,
                built@[i],
            ),
            forall|i: int| 0 <= i < built@.len() ==> colors_known(colors@, #[trigger] all[i].coloring),
        decreases rest@.len(),
    {
        let ghost k = built@.len() as int;
        let sc = rest.remove(0);
        assert(sc == all[k]);
        assert(rest@ == all.subrange(k + 1, all.len() as int));
        let segment = match parse_segment(sc, &config, &colors) {
            Ok(s) => s,
            Err(e) => {
                assert(!(all_colors_known(spec_file) && segments_plain(spec_file))) by {
                    if all_colors_known(spec_file) && segments_plain(spec_file) {
                        assert(colors_known(colors@, all[k].coloring));
                        assert(kind_is_plain(all[k].kind));
                        assert(all[k].signals@.len() == 0);
                    }
                }
                assert(all_colors_known(spec_file) ==> colors_known(colors@, all[k].coloring));
                return Err(e);
            },
        };
        built.push(segment);
    }
    Ok(built)
}

} // verus!
