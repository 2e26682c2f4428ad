use vstd::prelude::*;

verus! {

/// The color of one field of a segment: a color byte understood by the
/// status bar, or no color at all.
#[derive(Debug, Clone, Copy, PartialEq, Eq, Structural)]
pub enum Color {
    Colored(u8),
    Uncolored,
}

/// The character that closes a colored field.
pub open spec fn color_end() -> char {
    '\x01'
}

/// `text` as it appears in the status bar when drawn in `color`: a colored
/// field is the color byte as a character, the text, and a closing `\x01`.
pub open spec fn colored_view(text: Seq<char>, color: Color) -> Seq<char> {
    match color {
        Color::Uncolored => text,
        Color::Colored(c) => seq![c as char] + text + seq![color_end()],
    }
}

impl Color {
    /// The color that results when `self` falls back to `default`.
    pub open spec fn spec_or_default(self, default: Color) -> Color {
        match self {
            Color::Uncolored => default,
            Color::Colored(_) => self,
        }
    }

    /// This color, or `default` where it is unset.
    pub fn or_default(self, default: Color) -> (r: Color)
        ensures
            r == self.spec_or_default(default),
    {
        match self {
            Color::Uncolored => default,
            Color::Colored(_) => self,
        }
    }
}

impl Default for Color {
    fn default() -> (r: Color)
        ensures
            r == Color::Uncolored,
    {
        Color::Uncolored
    }
}

impl From<Option<u8>> for Color {
    fn from(c: Option<u8>) -> (r: Color) {
        match c {
            Some(c) => Color::Colored(c),
            None => Color::Uncolored,
        }
    }
}

impl vstd::std_specs::convert::FromSpecImpl<Option<u8>> for Color {
    open spec fn obeys_from_spec() -> bool {
        true
    }

    open spec fn from_spec(c: Option<u8>) -> Color {
        match c {
            Some(c) => Color::Colored(c),
            None => Color::Uncolored,
        }
    }
}

/// Relies on `String::from(char)`: a string of that one character, here the
/// character whose code point is the byte `c`.
#[verifier::external_body]
fn char_string(c: u8) -> (r: String)
    ensures
        r@ == seq![c as char],
{
    String::from(c as char)
}

/// `text` drawn in `color`.
pub fn colored(text: &str, color: Color) -> (r: String)
    ensures
        r@ == colored_view(text@, color),
{
    match color {
        Color::Uncolored => String::from_str(text),
        Color::Colored(c) => {
            let mut r = char_string(c);
            r.append(text);
            let end = "\x01";
            proof {
                reveal_strlit("\x01");
            }
            r.append(end);
            r
        },
    }
}

/// The four colors of a segment, one for each of its fields.
#[derive(Debug, Clone, Copy, PartialEq, Eq, Structural)]
pub struct SegmentColoring {
    pub text: Color,
    pub left_separator: Color,
    pub right_separator: Color,
    pub icon: Color,
}

impl SegmentColoring {
    /// The coloring with no field colored.
    pub open spec fn uncolored() -> SegmentColoring {
        SegmentColoring {
            text: Color::Uncolored,
            left_separator: Color::Uncolored,
            right_separator: Color::Uncolored,
            icon: Color::Uncolored,
        }
    }

    /// Each field of `self` falls back to the same field of `default`.
    pub open spec fn spec_or_default(self, default: SegmentColoring) -> SegmentColoring {
        SegmentColoring {
            text: self.text.spec_or_default(default.text),
            left_separator: self.left_separator.spec_or_default(default.left_separator),
            right_separator: self.right_separator.spec_or_default(default.right_separator),
            icon: self.icon.spec_or_default(default.icon),
        }
    }

    /// This coloring, each unset field taken from `default_coloring`.
    pub fn or_default(self, default_coloring: &SegmentColoring) -> (r: SegmentColoring)
        ensures
            r == self.spec_or_default(*default_coloring),
    {
        SegmentColoring {
            text: self.text.or_default(default_coloring.text),
            left_separator: self.left_separator.or_default(default_coloring.left_separator),
            right_separator: self.right_separator.or_default(default_coloring.right_separator),
            icon: self.icon.or_default(default_coloring.icon),
        }
    }
}

impl Default for SegmentColoring {
    fn default() -> (r: SegmentColoring)
        ensures
            r == SegmentColoring::uncolored(),
    {
        SegmentColoring {
            text: Color::Uncolored,
            left_separator: Color::Uncolored,
            right_separator: Color::Uncolored,
            icon: Color::Uncolored,
        }
    }
}

/// Color resolution: a color set on the segment wins over the default, an
/// unset one takes the default, and a field unset in both stays uncolored.
pub proof fn lemma_color_resolution(own: SegmentColoring, default: SegmentColoring)
    ensures
        ({
            let r = own.spec_or_default(default);
            &&& own.text is Colored ==> r.text == own.text
            &&& own.left_separator is Colored ==> r.left_separator == own.left_separator
            &&& own.right_separator is Colored ==> r.right_separator == own.right_separator
            &&& own.icon is Colored ==> r.icon == own.icon
            &&& own.text is Uncolored ==> r.text == default.text
            &&& own.left_separator is Uncolored ==> r.left_separator == default.left_separator
            &&& own.right_separator is Uncolored ==> r.right_separator == default.right_separator
            &&& own.icon is Uncolored ==> r.icon == default.icon
            &&& own == SegmentColoring::uncolored() && default == SegmentColoring::uncolored()
                ==> r == SegmentColoring::uncolored()
        }),
{
}

} // verus!
