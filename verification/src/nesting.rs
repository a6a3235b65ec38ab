//! How deeply a configuration file is nested.
//!
//! The TOML parser calls itself for each level of nesting, and so does what
//! builds and drops its result. How deep that goes is bounded here by a scan
//! that tells strings and comments from the rest and follows the brackets.

use vstd::prelude::*;
use vstd::utf8::encode_utf8;

verus! {

/// Where in a text a byte stands. The byte in the brackets is the quote of the
/// string, `"` or `'`.
#[derive(Debug, Clone, Copy, PartialEq, Eq, Structural)]
pub enum Mode {
    /// Outside strings and comments.
    Plain,
    /// In a comment.
    Comment,
    /// Behind one quote. A string has begun.
    Opened(u8),
    /// Behind two quotes: an empty string, or a block if a third one follows.
    OpenedTwice(u8),
    /// In a string between single quotes.
    Line(u8),
    /// Behind a backslash in such a string.
    LineEscape,
    /// In a string between threefold quotes.
    Block(u8),
    /// Behind a backslash in a block.
    BlockEscape,
    /// Behind one quote in a block.
    Closing(u8),
    /// Behind two quotes in a block.
    ClosingTwice(u8),
}

impl Mode {
    /// Whether a bracket that stands here is one.
    pub open spec fn is_outside(self) -> bool {
        self is Plain || self is OpenedTwice
    }

    /// Behind a byte outside strings and comments.
    pub open spec fn after_plain(byte: u8) -> Mode {
        if byte == 35 {
            Mode::Comment
        } else if byte == 34 || byte == 39 {
            Mode::Opened(byte)
        } else {
            Mode::Plain
        }
    }

    /// Behind a byte of a string between single quotes. One in `'` ends with
    /// its line, too.
    pub open spec fn after_line(quote: u8, byte: u8) -> Mode {
        if byte == quote || (quote == 39 && byte == 10) {
            Mode::Plain
        } else if quote == 34 && byte == 92 {
            Mode::LineEscape
        } else {
            Mode::Line(quote)
        }
    }

    /// Behind a byte of a block.
    pub open spec fn after_block(quote: u8, byte: u8) -> Mode {
        if byte == quote {
            Mode::Closing(quote)
        } else if quote == 34 && byte == 92 {
            Mode::BlockEscape
        } else {
            Mode::Block(quote)
        }
    }

    /// Behind the byte that stands here.
    pub open spec fn after(self, byte: u8) -> Mode {
        match self {
            Mode::Plain => Mode::after_plain(byte),
            Mode::Comment => if byte == 10 {
                Mode::Plain
            } else {
                Mode::Comment
            },
            Mode::Opened(quote) => if byte == quote {
                Mode::OpenedTwice(quote)
            } else {
                Mode::after_line(quote, byte)
            },
            Mode::OpenedTwice(quote) => if byte == quote {
                Mode::Block(quote)
            } else {
                Mode::after_plain(byte)
            },
            Mode::Line(quote) => Mode::after_line(quote, byte),
            Mode::LineEscape => Mode::Line(34),
            Mode::Block(quote) => Mode::after_block(quote, byte),
            Mode::BlockEscape => Mode::Block(34),
            Mode::Closing(quote) => if byte == quote {
                Mode::ClosingTwice(quote)
            } else {
                Mode::after_block(quote, byte)
            },
            Mode::ClosingTwice(quote) => if byte == quote {
                Mode::Plain
            } else {
                Mode::after_block(quote, byte)
            },
        }
    }
}

/// Where the byte behind the first `n` stands.
pub open spec fn mode_at(text: Seq<u8>, n: nat) -> Mode
    decreases n,
{
    if n == 0 {
        Mode::Plain
    } else {
        mode_at(text, (n - 1) as nat).after(text[n - 1])
    }
}

/// Whether the byte at `i` is an opening bracket or brace, outside strings and
/// comments.
pub open spec fn opens(text: Seq<u8>, i: int) -> bool {
    mode_at(text, i as nat).is_outside() && (text[i] == 91 || text[i] == 123)
}

/// Whether the byte at `i` is a closing bracket or brace, outside strings and
/// comments.
pub open spec fn closes(text: Seq<u8>, i: int) -> bool {
    mode_at(text, i as nat).is_outside() && (text[i] == 93 || text[i] == 125)
}

/// How many brackets and braces are open behind the first `n` bytes.
pub open spec fn depth_at(text: Seq<u8>, n: nat) -> nat
    decreases n,
{
    if n == 0 {
        0
    } else {
        let before = depth_at(text, (n - 1) as nat);
        if opens(text, n - 1) {
            before + 1
        } else if closes(text, n - 1) && before > 0 {
            (before - 1) as nat
        } else {
            before
        }
    }
}

/// How many brackets and braces are open at once, at most, in the first `n`
/// bytes.
pub open spec fn deepest(text: Seq<u8>, n: nat) -> nat
    decreases n,
{
    if n == 0 {
        0
    } else {
        let before = deepest(text, (n - 1) as nat);
        if depth_at(text, n) > before {
            depth_at(text, n)
        } else {
            before
        }
    }
}

/// A space or a tab.
pub open spec fn is_blank(byte: u8) -> bool {
    byte == 32 || byte == 9
}

/// What a key without quotes is made of: a letter, a digit, `_` or `-`.
pub open spec fn is_key_byte(byte: u8) -> bool {
    65 <= byte <= 90 || 97 <= byte <= 122 || 48 <= byte <= 57 || byte == 95 || byte == 45
}

/// Where the spaces and tabs at `i` end.
pub open spec fn blank_end(text: Seq<u8>, i: int) -> int
    decreases text.len() - i,
{
    if 0 <= i < text.len() && is_blank(text[i]) {
        blank_end(text, i + 1)
    } else {
        i
    }
}

/// Where the key without quotes at `i` ends.
pub open spec fn bare_end(text: Seq<u8>, i: int) -> int
    decreases text.len() - i,
{
    if 0 <= i < text.len() && is_key_byte(text[i]) {
        bare_end(text, i + 1)
    } else {
        i
    }
}

/// Behind the `"` that ends the key at `i`. A backslash takes the byte that
/// follows with it.
pub open spec fn basic_end(text: Seq<u8>, i: int) -> int
    decreases text.len() - i,
{
    if 0 <= i < text.len() {
        if text[i] == 34 {
            i + 1
        } else if text[i] == 92 && i + 1 < text.len() {
            basic_end(text, i + 2)
        } else {
            basic_end(text, i + 1)
        }
    } else {
        i
    }
}

/// Behind the `'` or the line feed that ends the key at `i`.
pub open spec fn literal_end(text: Seq<u8>, i: int) -> int
    decreases text.len() - i,
{
    if 0 <= i < text.len() {
        if text[i] == 39 || text[i] == 10 {
            i + 1
        } else {
            literal_end(text, i + 1)
        }
    } else {
        i
    }
}

/// Where the key at `i` ends, with or without quotes.
pub open spec fn key_end(text: Seq<u8>, i: int) -> int {
    if 0 <= i < text.len() && text[i] == 34 {
        basic_end(text, i + 1)
    } else if 0 <= i < text.len() && text[i] == 39 {
        literal_end(text, i + 1)
    } else {
        bare_end(text, i)
    }
}

/// Where the dot has to be that follows the key at `i`; spaces and tabs may
/// stand round the key.
pub open spec fn dot_after(text: Seq<u8>, i: int) -> int {
    blank_end(text, key_end(text, blank_end(text, i)))
}

proof fn lemma_ends_go_forward(text: Seq<u8>, i: int)
    requires
        0 <= i <= text.len(),
    ensures
        i <= blank_end(text, i) <= text.len(),
        i <= bare_end(text, i) <= text.len(),
        i <= basic_end(text, i) <= text.len(),
        i <= literal_end(text, i) <= text.len(),
    decreases text.len() - i,
{
    if i < text.len() {
        lemma_ends_go_forward(text, i + 1);
        if i + 1 < text.len() {
            lemma_ends_go_forward(text, i + 2);
        }
    }
}

proof fn lemma_dot_after(text: Seq<u8>, i: int)
    requires
        0 <= i <= text.len(),
    ensures
        i <= dot_after(text, i) <= text.len(),
{
    lemma_ends_go_forward(text, i);
    let key = blank_end(text, i);
    lemma_ends_go_forward(text, key);
    if key < text.len() {
        lemma_ends_go_forward(text, key + 1);
    }
    lemma_ends_go_forward(text, key_end(text, key));
}

/// How many keys the path at `i` has: keys with dots between them.
pub open spec fn path_keys(text: Seq<u8>, i: int) -> nat
    decreases text.len() - i,
{
    let dot = dot_after(text, i);
    if i <= dot < text.len() && text[dot] == 46 {
        1 + path_keys(text, dot + 1)
    } else {
        1
    }
}

/// How many keys the longest path has that follows one of the first `n` bytes,
/// where that is a `[` outside strings and comments.
pub open spec fn longest_path(text: Seq<u8>, n: nat) -> nat
    decreases n,
{
    if n == 0 {
        0
    } else {
        let before = longest_path(text, (n - 1) as nat);
        if opens(text, n - 1) && text[n - 1] == 91 && path_keys(text, n as int) > before {
            path_keys(text, n as int)
        } else {
            before
        }
    }
}

/// A bound on the levels of nesting in a text. A key in the header of a table
/// leads down two levels at most, an array of tables and the last table in it.
/// Below the table of that header come the values, each inside the arrays and
/// inline tables that are open round it.
pub open spec fn nesting(text: Seq<u8>) -> nat {
    deepest(text, text.len()) + 2 * longest_path(text, text.len())
}

/// How deeply a configuration file may be nested. Without optimisation the TOML
/// parser takes up to 4 KiB of stack for a level, so this many levels take half
/// of the 2 MiB that a thread has; the other half is left to its callers.
pub const MAX_NESTING: usize = 256;

/// Whether the text is nested no more deeply than `MAX_NESTING` levels, for
/// which the parser has stack enough.
pub open spec fn is_shallow(text: Seq<char>) -> bool {
    nesting(encode_utf8(text)) <= MAX_NESTING
}

impl Mode {
    fn next_after_plain(byte: u8) -> (mode: Mode)
        ensures
            mode == Mode::after_plain(byte),
    {
        if byte == 35 {
            Mode::Comment
        } else if byte == 34 || byte == 39 {
            Mode::Opened(byte)
        } else {
            Mode::Plain
        }
    }

    fn next_after_line(quote: u8, byte: u8) -> (mode: Mode)
        ensures
            mode == Mode::after_line(quote, byte),
    {
        if byte == quote || (quote == 39 && byte == 10) {
            Mode::Plain
        } else if quote == 34 && byte == 92 {
            Mode::LineEscape
        } else {
            Mode::Line(quote)
        }
    }

    fn next_after_block(quote: u8, byte: u8) -> (mode: Mode)
        ensures
            mode == Mode::after_block(quote, byte),
    {
        if byte == quote {
            Mode::Closing(quote)
        } else if quote == 34 && byte == 92 {
            Mode::BlockEscape
        } else {
            Mode::Block(quote)
        }
    }

    fn next_after(self, byte: u8) -> (mode: Mode)
        ensures
            mode == self.after(byte),
    {
        match self {
            Mode::Opened(quote) if byte == quote => Mode::OpenedTwice(quote),
            Mode::OpenedTwice(quote) if byte == quote => Mode::Block(quote),
            Mode::Closing(quote) if byte == quote => Mode::ClosingTwice(quote),
            Mode::ClosingTwice(quote) if byte == quote => Mode::Plain,
            Mode::Comment if byte != 10 => Mode::Comment,
            Mode::Comment => Mode::Plain,
            Mode::Plain | Mode::OpenedTwice(_) => Mode::next_after_plain(byte),
            Mode::Opened(quote) | Mode::Line(quote) => Mode::next_after_line(quote, byte),
            Mode::LineEscape => Mode::Line(34),
            Mode::BlockEscape => Mode::Block(34),
            Mode::Block(quote) | Mode::Closing(quote) | Mode::ClosingTwice(quote) => {
                Mode::next_after_block(quote, byte)
            },
        }
    }

    fn outside(self) -> (outside: bool)
        ensures
            outside == self.is_outside(),
    {
        match self {
            Mode::Plain | Mode::OpenedTwice(_) => true,
            _ => false,
        }
    }
}

fn find_blank_end(text: &[u8], start: usize) -> (end: usize)
    requires
        start <= text@.len(),
    ensures
        start <= end <= text@.len(),
        end == blank_end(text@, start as int),
{
    let mut i: usize = start;
    while i < text.len() && (text[i] == 32 || text[i] == 9)
        invariant
            start <= i <= text@.len(),
            blank_end(text@, i as int) == blank_end(text@, start as int),
        decreases text@.len() - i,
    {
        i = i + 1;
    }
    i
}

fn is_part_of_key(byte: u8) -> (part: bool)
    ensures
        part == is_key_byte(byte),
{
    (65 <= byte && byte <= 90) || (97 <= byte && byte <= 122) || (48 <= byte && byte <= 57) || byte
        == 95 || byte == 45
}

fn find_key_end(text: &[u8], start: usize) -> (end: usize)
    requires
        start <= text@.len(),
    ensures
        start <= end <= text@.len(),
        end == key_end(text@, start as int),
{
    let mut i: usize = start;
    if start < text.len() && text[start] == 34 {
        i = i + 1;
        while i < text.len() && text[i] != 34
            invariant
                start < i <= text@.len(),
                basic_end(text@, i as int) == basic_end(text@, start + 1),
            decreases text@.len() - i,
        {
            if text[i] == 92 && text.len() - i > 1 {
                i = i + 1;
            }
            i = i + 1;
        }
        if i < text.len() {
            i = i + 1;
        }
    } else if start < text.len() && text[start] == 39 {
        i = i + 1;
        while i < text.len() && text[i] != 39 && text[i] != 10
            invariant
                start < i <= text@.len(),
                literal_end(text@, i as int) == literal_end(text@, start + 1),
            decreases text@.len() - i,
        {
            i = i + 1;
        }
        if i < text.len() {
            i = i + 1;
        }
    } else {
        while i < text.len() && is_part_of_key(text[i])
            invariant
                start <= i <= text@.len(),
                bare_end(text@, i as int) == bare_end(text@, start as int),
            decreases text@.len() - i,
        {
            i = i + 1;
        }
    }
    i
}

fn count_path_keys(text: &[u8], start: usize) -> (keys: usize)
    requires
        0 < start <= text@.len(),
    ensures
        keys == path_keys(text@, start as int),
{
    let mut keys: usize = 1;
    let mut i: usize = start;
    loop
        invariant
            start <= i <= text@.len(),
            keys <= i,
            keys + path_keys(text@, i as int) == 1 + path_keys(text@, start as int),
        ensures
            keys == path_keys(text@, start as int),
        decreases text@.len() - i,
    {
        proof {
            lemma_dot_after(text@, i as int);
        }
        let key = find_blank_end(text, i);
        let end = find_key_end(text, key);
        let dot = find_blank_end(text, end);
        if dot < text.len() && text[dot] == 46 {
            keys = keys + 1;
            i = dot + 1;
        } else {
            break;
        }
    }
    keys
}

/// Whether the text is nested no more deeply than `MAX_NESTING` levels.
pub fn nesting_is_bounded(data: &str) -> (bounded: bool)
    ensures
        bounded == is_shallow(data@),
{
    let text: &[u8] = data.as_bytes();
    let mut mode = Mode::Plain;
    let mut depth: usize = 0;
    let mut most: usize = 0;
    let mut longest: usize = 0;
    for i in 0..text.len()
        invariant
            text@ == encode_utf8(data@),
            mode == mode_at(text@, i as nat),
            depth <= i,
            depth == depth_at(text@, i as nat),
            most == deepest(text@, i as nat),
            longest == longest_path(text@, i as nat),
    {
        let byte: u8 = text[i];
        if mode.outside() {
            if byte == 91 || byte == 123 {
                depth = depth + 1;
                if byte == 91 {
                    let keys = count_path_keys(text, i + 1);
                    if keys > longest {
                        longest = keys;
                    }
                }
            } else if (byte == 93 || byte == 125) && depth > 0 {
                depth = depth - 1;
            }
        }
        if depth > most {
            most = depth;
        }
        mode = mode.next_after(byte);
    }
    most <= MAX_NESTING && longest <= (MAX_NESTING - most) / 2
}

/// Without quotes and number signs, every bracket and brace counts: one that
/// opens adds a level, one that closes takes one away where there is one, and
/// every other byte leaves the depth as it is.
pub proof fn brackets_open_and_close_levels(text: Seq<u8>, n: nat)
    requires
        n < text.len(),
        forall|i: int| 0 <= i < n ==> text[i] != 34 && text[i] != 39 && text[i] != 35,
    ensures
        depth_at(text, 0) == 0,
        text[n as int] == 91 || text[n as int] == 123 ==> depth_at(text, n + 1) == depth_at(text, n)
            + 1,
        text[n as int] == 93 || text[n as int] == 125 ==> depth_at(text, n + 1) == if depth_at(
            text,
            n,
        ) > 0 {
            depth_at(text, n) - 1
        } else {
            0
        },
        text[n as int] != 91 && text[n as int] != 123 && text[n as int] != 93 && text[n as int]
            != 125 ==> depth_at(text, n + 1) == depth_at(text, n),
{
    lemma_plain_without_quotes(text, n);
}

proof fn lemma_plain_without_quotes(text: Seq<u8>, n: nat)
    requires
        n <= text.len(),
        forall|i: int| 0 <= i < n ==> text[i] != 34 && text[i] != 39 && text[i] != 35,
    ensures
        mode_at(text, n) == Mode::Plain,
    decreases n,
{
    if n > 0 {
        lemma_plain_without_quotes(text, (n - 1) as nat);
    }
}

/// The depth that counts is the greatest: no place in the text is deeper, and
/// some place is as deep, unless all are at the top.
pub proof fn deepest_is_the_greatest_depth(text: Seq<u8>, n: nat, k: nat)
    requires
        k <= n,
    ensures
        depth_at(text, k) <= deepest(text, n),
        exists|m: nat| m <= n && #[trigger] depth_at(text, m) == deepest(text, n),
    decreases n,
{
    if n == 0 {
        assert(depth_at(text, 0) == deepest(text, 0));
    } else {
        let m = (n - 1) as nat;
        deepest_is_the_greatest_depth(
            text,
            m,
            if k <= m {
                k
            } else {
                m
            },
        );
        if deepest(text, n) == deepest(text, m) {
            let w = choose|w: nat| w <= m && #[trigger] depth_at(text, w) == deepest(text, m);
            assert(w <= n && depth_at(text, w) == deepest(text, n));
        } else {
            assert(depth_at(text, n) == deepest(text, n));
        }
    }
}

/// No path that follows a `[` outside strings and comments has more keys than
/// the longest, and each of its dots adds a key.
pub proof fn longest_path_is_the_longest(text: Seq<u8>, n: nat, i: nat)
    requires
        i < n <= text.len(),
        text[i as int] == 91,
        mode_at(text, i) == Mode::Plain,
    ensures
        path_keys(text, i as int + 1) <= longest_path(text, n),
        ({
            let dot = dot_after(text, i as int + 1);
            &&& i < dot <= text.len()
            &&& path_keys(text, i as int + 1) == if dot < text.len() && text[dot] == 46 {
                1 + path_keys(text, dot + 1)
            } else {
                1
            }
        }),
    decreases n,
{
    lemma_dot_after(text, i as int + 1);
    if i + 1 < n {
        longest_path_is_the_longest(text, (n - 1) as nat, i);
    }
}

/// A comment holds no level: from a number sign outside strings to the end of
/// the line nothing counts, whatever stands there.
pub proof fn comments_hold_no_level(text: Seq<u8>, start: nat, n: nat)
    requires
        start < n <= text.len(),
        mode_at(text, start) == Mode::Plain,
        text[start as int] == 35,
        forall|i: int| start < i < n ==> text[i] != 10,
    ensures
        mode_at(text, n) == Mode::Comment,
        depth_at(text, n) == depth_at(text, start),
        n < text.len() && text[n as int] == 10 ==> mode_at(text, n + 1) == Mode::Plain && depth_at(
            text,
            n + 1,
        ) == depth_at(text, start),
    decreases n,
{
    if start + 1 < n {
        comments_hold_no_level(text, start, (n - 1) as nat);
    } else {
        assert(mode_at(text, n) == mode_at(text, start).after(35));
    }
}

/// A string in quotes holds no level: from its first byte to the quote that ends
/// it nothing counts. In `'` it ends with its line at the latest.
pub proof fn quoted_strings_hold_no_level(text: Seq<u8>, quote: u8, start: nat, n: nat)
    requires
        quote == 34 || quote == 39,
        start + 1 < n <= text.len(),
        mode_at(text, start) == Mode::Plain,
        text[start as int] == quote,
        forall|i: int|
            start < i < n ==> text[i] != quote && text[i] != 92 && (quote == 39 ==> text[i] != 10),
    ensures
        mode_at(text, n) == Mode::Line(quote),
        depth_at(text, n) == depth_at(text, start),
        n < text.len() && text[n as int] == quote ==> mode_at(text, n + 1) == Mode::Plain
            && depth_at(text, n + 1) == depth_at(text, start),
    decreases n,
{
    assert(mode_at(text, start + 1) == mode_at(text, start).after(quote));
    assert(depth_at(text, start + 1) == depth_at(text, start));
    if start + 2 < n {
        quoted_strings_hold_no_level(text, quote, start, (n - 1) as nat);
    } else {
        assert(mode_at(text, n) == mode_at(text, start + 1).after(text[start as int + 1]));
    }
    if n < text.len() && text[n as int] == quote {
        assert(mode_at(text, n) == Mode::Line(quote));
        assert(mode_at(text, n + 1) == mode_at(text, n).after(quote));
        assert(depth_at(text, n + 1) == depth_at(text, n));
    }
}

} // verus!
