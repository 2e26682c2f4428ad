pub mod constant;
pub mod program_output;

use vstd::prelude::*;

use crate::color::{colored, colored_view, SegmentColoring};
use crate::config::Configuration;
use crate::segments::constant::Constant;
use crate::segments::program_output::ProgramOutput;
use crate::signals::{
    convert_signal_offsets, offsets_in_range, resolved_signals, sigrtmax, sigrtmin,
};

verus! {

/// A source of values for a segment.
pub trait SegmentKind {
    /// A fresh value for the segment.
    fn compute_value(&mut self) -> String;
}

/// The value sources that a configuration can describe.
pub enum BuiltinKind {
    Constant(Constant),
    ProgramOutput(ProgramOutput),
}

/// One part of the status text: a value source, the decoration drawn around
/// its value, and when it is refreshed.
pub struct Segment<K> {
    /// The source of the segment's values.
    pub kind: K,
    /// The refresh interval in milliseconds; `None` for a segment that only
    /// signals refresh.
    pub update_interval: Option<u64>,
    /// The signal numbers that refresh the segment.
    pub signals: Vec<i32>,
    /// Drawn before the icon.
    pub left_separator: String,
    /// Drawn after the value.
    pub right_separator: String,
    /// Drawn before the value.
    pub icon: String,
    /// Show nothing at all, decoration included, for an empty value.
    pub hide_if_empty: bool,
    /// The color of each field.
    pub coloring: SegmentColoring,
}

/// The text that `own` gives, else the one that `default` gives, else nothing.
pub open spec fn text_or(own: Option<String>, default: Option<String>) -> Seq<char> {
    match own {
        Some(s) => s@,
        None => match default {
            Some(d) => d@,
            None => Seq::empty(),
        },
    }
}

impl<K> Segment<K> {
    /// The text of the segment for the computed `value`: nothing when the
    /// segment hides an empty value, else each field in its color.
    pub open spec fn rendered(&self, value: Seq<char>) -> Seq<char> {
        if self.hide_if_empty && value.len() == 0 {
            Seq::empty()
        } else {
            colored_view(self.left_separator@, self.coloring.left_separator) + colored_view(
                self.icon@,
                self.coloring.icon,
            ) + colored_view(value, self.coloring.text) + colored_view(
                self.right_separator@,
                self.coloring.right_separator,
            )
        }
    }

    /// `a` and `b` agree in all but their value source.
    pub open spec fn same_but_kind<L>(a: &Segment<K>, b: &Segment<L>) -> bool {
        &&& a.update_interval == b.update_interval
        &&& a.signals@ == b.signals@
        &&& a.left_separator == b.left_separator
        &&& a.right_separator == b.right_separator
        &&& a.icon == b.icon
        &&& a.hide_if_empty == b.hide_if_empty
        &&& a.coloring == b.coloring
    }

    /// A segment with no decoration: no separators, no icon, no colors, and
    /// empty values shown. `Err` when a signal offset lies past the last
    /// real-time signal of the process.
    pub fn new(kind: K, update_interval: Option<u64>, signal_offsets: Vec<u32>) -> (r: Result<
        Segment<K>,
        String,
    >)
        ensures
            r matches Ok(s) ==> {
                &&& s.kind == kind
                &&& s.update_interval == update_interval
                &&& s.left_separator@.len() == 0
                &&& s.right_separator@.len() == 0
                &&& s.icon@.len() == 0
                &&& !s.hide_if_empty
                &&& s.coloring == SegmentColoring::uncolored()
                &&& exists|lo: i32, hi: i32|
                    offsets_in_range(signal_offsets@, lo, hi) && resolved_signals(
                        s.signals@,
                        signal_offsets@,
                        lo,
                    )
            },
            signal_offsets@.len() == 0 ==> r is Ok,
    {
        let signals = match Self::resolve_signals(&signal_offsets) {
            Ok(signals) => signals,
            Err(e) => return Err(e),
        };
        Ok(Segment {
            kind,
            update_interval,
            signals,
            left_separator: String::new(),
            right_separator: String::new(),
            icon: String::new(),
            hide_if_empty: false,
            coloring: SegmentColoring::default(),
        })
    }

    /// A segment whose decoration falls back to the defaults of `config`:
    /// separators and each color come from the segment where it sets them
    /// and from `config` otherwise; the icon has no default. `Err` when a
    /// signal offset lies past the last real-time signal of the process.
    pub fn new_from_config(
        kind: K,
        update_interval: Option<u64>,
        signal_offsets: Vec<u32>,
        left_separator: Option<String>,
        right_separator: Option<String>,
        icon: Option<String>,
        hide_if_empty: bool,
        coloring: SegmentColoring,
        config: &Configuration,
    ) -> (r: Result<Segment<K>, String>)
        ensures
            r matches Ok(s) ==> {
                &&& s.kind == kind
                &&& s.update_interval == update_interval
                &&& s.left_separator@ == text_or(left_separator, config.left_separator)
                &&& s.right_separator@ == text_or(right_separator, config.right_separator)
                &&& s.icon@ == text_or(icon, None)
                &&& s.hide_if_empty == hide_if_empty
                &&& s.coloring == coloring.spec_or_default(config.coloring)
                &&& exists|lo: i32, hi: i32|
                    offsets_in_range(signal_offsets@, lo, hi) && resolved_signals(
                        s.signals@,
                        signal_offsets@,
                        lo,
                    )
            },
            signal_offsets@.len() == 0 ==> r is Ok,
    {
        let left_separator = text_or_default(left_separator, &config.left_separator);
        let right_separator = text_or_default(right_separator, &config.right_separator);
        let icon = text_or_default(icon, &None);
        let coloring = coloring.or_default(&config.coloring);
        let signals = match Self::resolve_signals(&signal_offsets) {
            Ok(signals) => signals,
            Err(e) => return Err(e),
        };
        Ok(Segment {
            kind,
            update_interval,
            signals,
            left_separator,
            right_separator,
            icon,
            hide_if_empty,
            coloring,
        })
    }

    /// The text of the segment for the computed `value`.
    pub fn render(&self, value: &str) -> (r: String)
        ensures
            r@ == self.rendered(value@),
    {
        if self.hide_if_empty && value.is_empty() {
            return String::new();
        }
        let mut r = colored(self.left_separator.as_str(), self.coloring.left_separator);
        let icon = colored(self.icon.as_str(), self.coloring.icon);
        r.append(icon.as_str());
        let text = colored(value, self.coloring.text);
        r.append(text.as_str());
        let right = colored(self.right_separator.as_str(), self.coloring.right_separator);
        r.append(right.as_str());
        r
    }

    /// The same segment with its value source replaced by `kind`, and the
    /// source it had.
    pub fn replace_kind<L>(self, kind: L) -> (r: (Segment<L>, K))
        ensures
            r.0.kind == kind,
            r.1 == self.kind,
            Self::same_but_kind(&self, &r.0),
    {
        let Segment {
            kind: old_kind,
            update_interval,
            signals,
            left_separator,
            right_separator,
            icon,
            hide_if_empty,
            coloring,
        } = self;
        (
            Segment {
                kind,
                update_interval,
                signals,
                left_separator,
                right_separator,
                icon,
                hide_if_empty,
                coloring,
            },
            old_kind,
        )
    }

    /// Signal numbers resolved as offsets from the first real-time signal of
    /// the process; `Err` when one lies past the last.
    fn resolve_signals(signal_offsets: &Vec<u32>) -> (r: Result<Vec<i32>, String>)
        ensures
            r matches Ok(v) ==> exists|lo: i32, hi: i32|
                offsets_in_range(signal_offsets@, lo, hi) && resolved_signals(v@, signal_offsets@, lo),
            signal_offsets@.len() == 0 ==> r is Ok,
    {
        let rtmin = sigrtmin();
        let rtmax = sigrtmax();
        convert_signal_offsets(signal_offsets, rtmin, rtmax)
    }
}

impl<K: SegmentKind> Segment<K> {
    /// Asks the value source for a fresh value and returns the segment's text
    /// for it.
    pub fn compute_value(&mut self) -> (r: String)
        ensures
            Self::same_but_kind(old(self), final(self)),
            exists|value: Seq<char>| r@ == final(self).rendered(value),
    {
        let value = self.kind.compute_value();
        self.render(value.as_str())
    }
}

/// `own` where it is set, else a copy of `default`, else the empty string.
fn text_or_default(own: Option<String>, default: &Option<String>) -> (r: String)
    ensures
        r@ == text_or(own, *default),
{
    match own {
        Some(s) => s,
        None => match default {
            Some(d) => d.clone(),
            None => String::new(),
        },
    }
}

/// A segment that hides empty values shows nothing for an empty value, not
/// even its separators or icon.
pub proof fn lemma_hidden_when_empty<K>(segment: &Segment<K>, value: Seq<char>)
    requires
        segment.hide_if_empty,
        value.len() == 0,
    ensures
        segment.rendered(value) == Seq::<char>::empty(),
{
}

/// Without colors, a segment's text is its left separator, icon, value and
/// right separator, verbatim, whenever the value is shown.
pub proof fn lemma_uncolored_render<K>(segment: &Segment<K>, value: Seq<char>)
    requires
        segment.coloring == SegmentColoring::uncolored(),
        !(segment.hide_if_empty && value.len() == 0),
    ensures
        segment.rendered(value) == segment.left_separator@ + segment.icon@ + value
            + segment.right_separator@,
{
}

} // verus!
