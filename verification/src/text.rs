//! The writer of the text notation: its configuration and the primitives
//! that put separators, indentation, raw text, quoted text and bytes.

use vstd::prelude::*;

verus! {

/// The layout of the text.
#[derive(Debug, Clone, Copy, PartialEq, Eq, Structural)]
pub enum TextConfigStyle {
    /// Compact: no whitespace.
    Default,
    /// Pretty: whitespace after separators, and with an `indent` each item
    /// on a line of its own, indented by `level * indent` spaces.
    Pretty { level: usize, indent: Option<usize> },
}

impl Default for TextConfigStyle {
    fn default() -> (r: Self)
        ensures
            r == TextConfigStyle::Default,
    {
        TextConfigStyle::Default
    }
}

impl TextConfigStyle {
    /// The pretty style with the given indent, at level 0.
    pub fn pretty(indent: Option<usize>) -> (r: TextConfigStyle)
        ensures
            r == (TextConfigStyle::Pretty { level: 0, indent }),
    {
        TextConfigStyle::Pretty { indent, level: 0 }
    }

    /// The pretty style with an indent of 2, at level 0.
    pub fn default_pretty() -> (r: TextConfigStyle)
        ensures
            r == (TextConfigStyle::Pretty { level: 0, indent: Some(2usize) }),
    {
        TextConfigStyle::Pretty { indent: Some(2), level: 0 }
    }

    /// Whether this is the pretty style.
    pub fn is_pretty(&self) -> (r: bool)
        ensures
            r == (*self is Pretty),
    {
        match self {
            TextConfigStyle::Pretty { .. } => true,
            _ => false,
        }
    }
}

/// The configuration of the text writer.
#[derive(Debug, Clone, Copy, PartialEq, Eq, Structural)]
pub struct TextConfig {
    pub style: TextConfigStyle,
    pub numbers_with_type: bool,
}

impl Default for TextConfig {
    fn default() -> (r: Self)
        ensures
            r.style == TextConfigStyle::Default,
            r.numbers_with_type,
    {
        TextConfig { style: TextConfigStyle::Default, numbers_with_type: true }
    }
}

impl TextConfig {
    /// The same configuration with the given style.
    pub fn with_style(self, style: TextConfigStyle) -> (r: TextConfig)
        ensures
            r.style == style,
            r.numbers_with_type == self.numbers_with_type,
    {
        TextConfig { style, numbers_with_type: self.numbers_with_type }
    }

    /// The same configuration, writing numbers with their type or not.
    pub fn with_numbers_with_type(self, mode: bool) -> (r: TextConfig)
        ensures
            r.style == self.style,
            r.numbers_with_type == mode,
    {
        TextConfig { style: self.style, numbers_with_type: mode }
    }
}

/// `count` spaces.
pub open spec fn spaces(count: nat) -> Seq<char> {
    Seq::new(count, |i: int| ' ')
}

/// The two lower case hexadecimal digits of a byte.
pub open spec fn hex_pair(byte: u8) -> Seq<char> {
    hex_digit_text((byte / 16) as u8) + hex_digit_text((byte % 16) as u8)
}

/// The lower case hexadecimal digit of a number below 16.
pub open spec fn hex_digit_text(nibble: u8) -> Seq<char> {
    if nibble == 0 {
        "0"@
    } else if nibble == 1 {
        "1"@
    } else if nibble == 2 {
        "2"@
    } else if nibble == 3 {
        "3"@
    } else if nibble == 4 {
        "4"@
    } else if nibble == 5 {
        "5"@
    } else if nibble == 6 {
        "6"@
    } else if nibble == 7 {
        "7"@
    } else if nibble == 8 {
        "8"@
    } else if nibble == 9 {
        "9"@
    } else if nibble == 10 {
        "a"@
    } else if nibble == 11 {
        "b"@
    } else if nibble == 12 {
        "c"@
    } else if nibble == 13 {
        "d"@
    } else if nibble == 14 {
        "e"@
    } else {
        "f"@
    }
}

/// The hexadecimal digits of `bytes[k..]`.
pub open spec fn hex_text(bytes: Seq<u8>, k: int) -> Seq<char>
    decreases bytes.len() - k,
{
    if k < 0 || k >= bytes.len() {
        Seq::empty()
    } else {
        hex_pair(bytes[k]) + hex_text(bytes, k + 1)
    }
}

/// The lower case hexadecimal digit of a number below 16.
pub fn hex_digit(nibble: u8) -> (r: &'static str)
    ensures
        r@ == hex_digit_text(nibble),
{
    if nibble == 0 {
        "0"
    } else if nibble == 1 {
        "1"
    } else if nibble == 2 {
        "2"
    } else if nibble == 3 {
        "3"
    } else if nibble == 4 {
        "4"
    } else if nibble == 5 {
        "5"
    } else if nibble == 6 {
        "6"
    } else if nibble == 7 {
        "7"
    } else if nibble == 8 {
        "8"
    } else if nibble == 9 {
        "9"
    } else if nibble == 10 {
        "a"
    } else if nibble == 11 {
        "b"
    } else if nibble == 12 {
        "c"
    } else if nibble == 13 {
        "d"
    } else if nibble == 14 {
        "e"
    } else {
        "f"
    }
}

/// The text that the `Debug` formatting of std gives for a text: the text in
/// double quotes, with the characters escaped that a string literal escapes.
pub uninterp spec fn debug_text(value: Seq<char>) -> Seq<char>;

/// `format!("{:?}", value)` for a `str`: its quoted and escaped form.
#[verifier::external_body]
fn format_debug(value: &str) -> (r: String)
    ensures
        r@ == debug_text(value@),
{
    format!("{:?}", value)
}

/// The writer of the text notation: the text written so far and the
/// configuration.
#[derive(Debug, Clone)]
pub struct TextSerializer {
    pub stream: String,
    pub config: TextConfig,
}

impl TextSerializer {
    /// A writer that appends to `stream`.
    pub fn new(stream: String, config: TextConfig) -> (r: TextSerializer)
        ensures
            r.stream == stream,
            r.config == config,
    {
        TextSerializer { stream, config }
    }

    /// The text written.
    pub fn into_inner(self) -> (r: String)
        ensures
            r == self.stream,
    {
        self.stream
    }

    /// Enters a nested level: in the pretty style the level grows by one.
    pub fn push_level(&mut self)
        requires
            old(self).config.style matches TextConfigStyle::Pretty { level, indent } ==> level
                < usize::MAX,
        ensures
            final(self).stream == old(self).stream,
            final(self).config.numbers_with_type == old(self).config.numbers_with_type,
            final(self).config.style == match old(self).config.style {
                TextConfigStyle::Pretty { level, indent } => TextConfigStyle::Pretty {
                    level: (level + 1) as usize,
                    indent,
                },
                TextConfigStyle::Default => TextConfigStyle::Default,
            },
    {
        match self.config.style {
            TextConfigStyle::Pretty { level, indent } => {
                self.config.style = TextConfigStyle::Pretty { level: level + 1, indent };
            },
            TextConfigStyle::Default => {},
        }
    }

    /// Leaves a nested level: in the pretty style the level shrinks by one,
    /// and stays at 0.
    pub fn pop_level(&mut self)
        ensures
            final(self).stream == old(self).stream,
            final(self).config.numbers_with_type == old(self).config.numbers_with_type,
            final(self).config.style == match old(self).config.style {
                TextConfigStyle::Pretty { level, indent } => TextConfigStyle::Pretty {
                    level: if level > 0 {
                        (level - 1) as usize
                    } else {
                        0
                    },
                    indent,
                },
                TextConfigStyle::Default => TextConfigStyle::Default,
            },
    {
        match self.config.style {
            TextConfigStyle::Pretty { level, indent } => {
                if level > 0 {
                    self.config.style = TextConfigStyle::Pretty { level: level - 1, indent };
                }
            },
            TextConfigStyle::Default => {},
        }
    }

    /// Writes `value` as it is.
    pub fn write_raw(&mut self, value: &str)
        ensures
            final(self).stream@ == old(self).stream@ + value@,
            final(self).config == old(self).config,
    {
        self.stream.append(value);
    }

    /// Writes a space in the pretty style, and nothing else.
    pub fn write_whitespace(&mut self)
        ensures
            final(self).config == old(self).config,
            final(self).stream@ == old(self).stream@ + (if old(self).config.style is Pretty {
                " "@
            } else {
                Seq::empty()
            }),
    {
        if self.config.style.is_pretty() {
            self.stream.append(" ");
        } else {
            proof {
                assert(self.stream@ + Seq::<char>::empty() =~= self.stream@);
            }
        }
    }

    /// Writes the separator of items: `, ` in the pretty style without
    /// indent, and `,` else.
    pub fn write_separator(&mut self)
        ensures
            final(self).config == old(self).config,
            final(self).stream@ == old(self).stream@ + (match old(self).config.style {
                TextConfigStyle::Pretty { level, indent: None } => ", "@,
                _ => ","@,
            }),
    {
        match self.config.style {
            TextConfigStyle::Pretty { level, indent: None } => {
                self.stream.append(", ");
            },
            _ => {
                self.stream.append(",");
            },
        }
    }

    /// Starts a new line in the pretty style with an indent: writes a line
    /// feed and `level * indent` spaces; nothing else.
    pub fn write_new_line_indent(&mut self)
        requires
            old(self).config.style matches TextConfigStyle::Pretty { level, indent: Some(width) }
                ==> level * width <= usize::MAX,
        ensures
            final(self).config == old(self).config,
            final(self).stream@ == old(self).stream@ + (match old(self).config.style {
                TextConfigStyle::Pretty { level, indent: Some(width) } => "\n"@ + spaces(
                    (level * width) as nat,
                ),
                _ => Seq::empty(),
            }),
    {
        let ghost start = self.stream@;
        match self.config.style {
            TextConfigStyle::Pretty { level, indent: Some(width) } => {
                self.stream.append("\n");
                let count: usize = level * width;
                let mut i: usize = 0;
                while i < count
                    invariant
                        i <= count,
                        self.stream@ == start + "\n"@ + spaces(i as nat),
                        self.config == old(self).config,
                    decreases count - i,
                {
                    self.stream.append(" ");
                    proof {
                        reveal_strlit(" ");
                        assert(spaces(i as nat) + " "@ =~= spaces((i + 1) as nat));
                        assert(start + "\n"@ + spaces(i as nat) + " "@ =~= start + "\n"@ + spaces(
                            (i + 1) as nat,
                        ));
                    }
                    i += 1;
                }
                proof {
                    assert(start + "\n"@ + spaces(count as nat) =~= start + ("\n"@ + spaces(
                        count as nat,
                    )));
                }
            },
            _ => {
                proof {
                    assert(self.stream@ + Seq::<char>::empty() =~= self.stream@);
                }
            },
        }
    }

    /// Writes a number given as text, followed by `_` and the name of its
    /// type.
    pub fn write_from_string(&mut self, value: &str, typename: &str)
        ensures
            final(self).config == old(self).config,
            final(self).stream@ == old(self).stream@ + value@ + "_"@ + typename@,
    {
        self.stream.append(value);
        self.stream.append("_");
        self.stream.append(typename);
    }

    /// Writes a text in double quotes, escaped.
    pub fn write_str(&mut self, value: &str)
        ensures
            final(self).config == old(self).config,
            final(self).stream@ == old(self).stream@ + debug_text(value@),
    {
        let quoted = format_debug(value);
        self.stream.append(quoted.as_str());
    }

    /// Writes a byte buffer: `0x` and two hexadecimal digits for each byte.
    pub fn write_bytes(&mut self, value: &[u8])
        ensures
            final(self).config == old(self).config,
            final(self).stream@ == old(self).stream@ + "0x"@ + hex_text(value@, 0),
    {
        let ghost start = self.stream@;
        self.stream.append("0x");
        let mut i: usize = 0;
        proof {
            assert(self.stream@ + hex_text(value@, 0) =~= start + "0x"@ + hex_text(value@, 0));
        }
        while i < value.len()
            invariant
                i <= value@.len(),
                self.config == old(self).config,
                self.stream@ + hex_text(value@, i as int) == start + "0x"@ + hex_text(value@, 0),
            decreases value@.len() - i,
        {
            let ghost before = self.stream@;
            let byte = value[i];
            self.stream.append(hex_digit(byte / 16));
            self.stream.append(hex_digit(byte % 16));
            proof {
                assert(before + hex_digit_text((byte / 16) as u8) + hex_digit_text(
                    (byte % 16) as u8,
                ) + hex_text(value@, i + 1) =~= before + (hex_pair(byte) + hex_text(
                    value@,
                    i + 1,
                )));
            }
            i += 1;
        }
        proof {
            assert(self.stream@ + Seq::<char>::empty() =~= self.stream@);
        }
    }
}

} // verus!
