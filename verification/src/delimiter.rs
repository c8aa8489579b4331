//! The field delimiter of the delimited text that is written.

use vstd::prelude::*;
use vstd::string::*;
use vstd::utf8::is_ascii_chars;

verus! {

/// The byte of the horizontal tab.
pub const TAB: u8 = 9;

/// The byte of the line feed.
pub const LINE_FEED: u8 = 10;

/// The byte of the backslash, which opens an escape.
pub const BACKSLASH: u8 = 92;

/// The byte of the letter that names the tab in an escape.
pub const LETTER_T: u8 = 116;

/// The byte of the letter that names the line feed in an escape.
pub const LETTER_N: u8 = 110;

/// A field delimiter: a single byte, meant to be an ASCII character.
#[derive(Clone, Copy, Debug)]
pub struct Delimiter(pub u8);

/// The file extension that goes with a delimiter byte: `tsv` for the tab,
/// `csv` for every other byte.
pub open spec fn extension_of(byte: u8) -> Seq<char> {
    if byte == TAB {
        "tsv"@
    } else {
        "csv"@
    }
}

/// The delimiter byte that a command-line word stands for: the tab for the
/// escape `\t`, the line feed for the escape `\n`, and its own byte for a
/// word of one ASCII character. Any other word stands for none.
pub open spec fn parsed_delimiter(word: Seq<char>) -> Option<u8> {
    if word == "\\t"@ {
        Some(TAB)
    } else if word == "\\n"@ {
        Some(LINE_FEED)
    } else if word.len() == 1 && is_ascii_chars(word) {
        Some(word[0] as u8)
    } else {
        None
    }
}

/// The complaint about a word that stands for no delimiter.
pub open spec fn bad_delimiter_message(word: Seq<char>) -> Seq<char> {
    "Could not convert '"@ + word + "' to a single ASCII character."@
}

impl Delimiter {
    /// Whether the byte lies in the ASCII range.
    pub open spec fn is_ascii(&self) -> bool {
        self.0 < 128
    }

    /// The delimiter as the byte that parts the fields.
    pub fn as_byte(&self) -> (byte: u8)
        ensures
            byte == self.0,
    {
        self.0
    }

    /// The delimiter as a character, for display.
    pub fn as_char(&self) -> (c: char)
        ensures
            c == self.0 as char,
            c as int == self.0 as int,
    {
        self.0 as char
    }

    /// Reads a delimiter from a command-line word.
    pub fn from_str(word: &str) -> (parsed: Result<Delimiter, String>)
        ensures
            match parsed_delimiter(word@) {
                Some(byte) => parsed == Ok::<Delimiter, String>(Delimiter(byte)),
                None => parsed matches Err(message) && message@ == bad_delimiter_message(word@),
            },
            parsed matches Ok(delimiter) ==> delimiter.is_ascii(),
    {
        proof {
            reveal_strlit("\\t");
            reveal_strlit("\\n");
        }
        if word.is_ascii() {
            let n = word.unicode_len();
            if n == 2 && word.get_ascii(0) == BACKSLASH {
                let letter = word.get_ascii(1);
                if letter == LETTER_T {
                    assert(word@ =~= "\\t"@);
                    return Ok(Delimiter(TAB));
                }
                if letter == LETTER_N {
                    assert(word@ =~= "\\n"@);
                    return Ok(Delimiter(LINE_FEED));
                }
            }
            if n == 1 {
                return Ok(Delimiter(word.get_ascii(0)));
            }
        }
        proof {
            if !is_ascii_chars(word@) {
                lemma_words_beyond_ascii_are_refused(word@);
            }
        }
        let mut message = String::from_str("Could not convert '");
        message.append(word);
        message.append("' to a single ASCII character.");
        Err(message)
    }

    /// The extension of a file that holds text with this delimiter.
    pub fn to_file_extension(&self) -> (ext: String)
        ensures
            ext@ == extension_of(self.0),
    {
        if self.0 == TAB {
            String::from_str("tsv")
        } else {
            String::from_str("csv")
        }
    }
}

/// A word with a character beyond the ASCII range stands for no delimiter.
pub proof fn lemma_words_beyond_ascii_are_refused(word: Seq<char>)
    requires
        !is_ascii_chars(word),
    ensures
        parsed_delimiter(word) is None,
{
    reveal_strlit("\\t");
    reveal_strlit("\\n");
}

/// A word that is not exactly one character long stands for no delimiter,
/// but for the two escapes.
pub proof fn lemma_words_of_other_lengths_are_refused(word: Seq<char>)
    requires
        word.len() != 1,
        word != "\\t"@,
        word != "\\n"@,
    ensures
        parsed_delimiter(word) is None,
{
}

/// A delimiter that a word stands for lies in the ASCII range, and only the
/// tab, escaped or not, goes with the extension `tsv`.
pub proof fn lemma_parsed_delimiter_is_ascii(word: Seq<char>)
    requires
        parsed_delimiter(word) is Some,
    ensures
        parsed_delimiter(word)->0 < 128,
        extension_of(parsed_delimiter(word)->0) == "tsv"@ <==> word == "\\t"@ || word == "\t"@,
        extension_of(parsed_delimiter(word)->0) != "tsv"@ ==> extension_of(
            parsed_delimiter(word)->0,
        ) == "csv"@,
{
    reveal_strlit("\\t");
    reveal_strlit("\\n");
    reveal_strlit("\t");
    reveal_strlit("tsv");
    reveal_strlit("csv");
    let byte = parsed_delimiter(word)->0;
    if word != "\\t"@ && word != "\\n"@ {
        if byte == TAB {
            assert(word =~= "\t"@);
        }
    }
    if word == "\t"@ {
        assert(is_ascii_chars(word));
    }
    if extension_of(byte) == "tsv"@ {
        if byte != TAB {
            assert("csv"@[0] == 'c');
        }
    }
}

impl std::str::FromStr for Delimiter {
    type Err = String;

    fn from_str(word: &str) -> (parsed: Result<Delimiter, Self::Err>)
        ensures
            match parsed_delimiter(word@) {
                Some(byte) => parsed == Ok::<Delimiter, String>(Delimiter(byte)),
                None => parsed matches Err(message) && message@ == bad_delimiter_message(word@),
            },
            parsed matches Ok(delimiter) ==> delimiter.is_ascii(),
    {
        Delimiter::from_str(word)
    }
}

} // verus!
