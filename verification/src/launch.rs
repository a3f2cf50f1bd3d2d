//! The words of a pipeline description: a test source for video, the format
//! of its output, and a sink.

use vstd::prelude::*;
use vstd::string::StringExecFns;

verus! {

/// The digit `d` as a character.
pub open spec fn digit(d: nat) -> char {
    if d == 0 {
        '0'
    } else if d == 1 {
        '1'
    } else if d == 2 {
        '2'
    } else if d == 3 {
        '3'
    } else if d == 4 {
        '4'
    } else if d == 5 {
        '5'
    } else if d == 6 {
        '6'
    } else if d == 7 {
        '7'
    } else if d == 8 {
        '8'
    } else {
        '9'
    }
}

/// The number `n` in decimal digits, without leading zeros.
pub open spec fn decimal(n: nat) -> Seq<char>
    decreases n,
{
    if n < 10 {
        seq![digit(n)]
    } else {
        decimal(n / 10).push(digit(n % 10))
    }
}

/// The number `i` in decimal digits, with a minus sign if it is negative.
pub open spec fn signed_decimal(i: int) -> Seq<char> {
    if i < 0 {
        seq!['-'] + decimal((-i) as nat)
    } else {
        decimal(i as nat)
    }
}

/// The digit `d` as text.
fn digit_text(d: u64) -> (s: &'static str)
    requires
        d < 10,
    ensures
        s@ == seq![digit(d as nat)],
{
    proof {
        reveal_strlit("0");
        reveal_strlit("1");
        reveal_strlit("2");
        reveal_strlit("3");
        reveal_strlit("4");
        reveal_strlit("5");
        reveal_strlit("6");
        reveal_strlit("7");
        reveal_strlit("8");
        reveal_strlit("9");
    }
    let s = if d == 0 {
        "0"
    } else if d == 1 {
        "1"
    } else if d == 2 {
        "2"
    } else if d == 3 {
        "3"
    } else if d == 4 {
        "4"
    } else if d == 5 {
        "5"
    } else if d == 6 {
        "6"
    } else if d == 7 {
        "7"
    } else if d == 8 {
        "8"
    } else {
        "9"
    };
    assert(s@ =~= seq![digit(d as nat)]);
    s
}

/// Writes `n` in decimal digits behind `s`.
pub fn push_decimal(s: &mut String, n: u64)
    ensures
        final(s)@ == old(s)@ + decimal(n as nat),
    decreases n,
{
    if n >= 10 {
        push_decimal(s, n / 10);
    }
    s.append(digit_text(n % 10));
    assert(s@ =~= old(s)@ + decimal(n as nat));
}

/// Writes `i` in decimal digits behind `s`, with a minus sign if it is
/// negative.
pub fn push_signed_decimal(s: &mut String, i: i32)
    ensures
        final(s)@ == old(s)@ + signed_decimal(i as int),
{
    if i < 0 {
        proof {
            reveal_strlit("-");
        }
        s.append("-");
        push_decimal(s, (-(i as i64)) as u64);
        assert(s@ =~= old(s)@ + signed_decimal(i as int));
    } else {
        push_decimal(s, i as u64);
    }
}

/// The pictures that the test source can show.
#[derive(Clone, Copy, Debug, PartialEq, Eq, Structural)]
pub enum VideoTestSrcPattern {
    Smpte,
    Snow,
    Black,
    White,
    Checker1,
    Checker2,
    Smpte75,
    Ball,
}

impl VideoTestSrcPattern {
    /// The number by which the test source knows the picture.
    pub open spec fn spec_id(self) -> u32 {
        match self {
            VideoTestSrcPattern::Smpte => 0,
            VideoTestSrcPattern::Snow => 1,
            VideoTestSrcPattern::Black => 2,
            VideoTestSrcPattern::White => 3,
            VideoTestSrcPattern::Checker1 => 7,
            VideoTestSrcPattern::Checker2 => 8,
            VideoTestSrcPattern::Smpte75 => 13,
            VideoTestSrcPattern::Ball => 18,
        }
    }

    /// The number by which the test source knows the picture.
    #[verifier::when_used_as_spec(spec_id)]
    pub fn id(self) -> (n: u32)
        ensures
            n == self.spec_id(),
    {
        match self {
            VideoTestSrcPattern::Smpte => 0,
            VideoTestSrcPattern::Snow => 1,
            VideoTestSrcPattern::Black => 2,
            VideoTestSrcPattern::White => 3,
            VideoTestSrcPattern::Checker1 => 7,
            VideoTestSrcPattern::Checker2 => 8,
            VideoTestSrcPattern::Smpte75 => 13,
            VideoTestSrcPattern::Ball => 18,
        }
    }
}

impl Default for VideoTestSrcPattern {
    fn default() -> (p: VideoTestSrcPattern)
        ensures
            p == VideoTestSrcPattern::Smpte,
    {
        VideoTestSrcPattern::Smpte
    }
}

/// The texts of `v`, as mathematics.
pub open spec fn texts(v: Seq<String>) -> Seq<Seq<char>> {
    v.map_values(|s: String| s@)
}

/// The options of the test source.
#[derive(Clone, Copy, Debug)]
pub struct VideoTestSrcOpt {
    pub pattern: VideoTestSrcPattern,
    pub num_buffers: i64,
}

/// The word that sets the picture of the test source.
pub open spec fn pattern_word(pattern: VideoTestSrcPattern) -> Seq<char> {
    "pattern="@ + decimal(pattern.spec_id() as nat)
}

impl VideoTestSrcOpt {
    /// Adds the word that sets the picture to the words `v`.
    pub fn write_property_string(&self, v: &mut Vec<String>)
        ensures
            texts(final(v)@) == texts(old(v)@).push(pattern_word(self.pattern)),
    {
        let mut word = "pattern=".to_owned();
        push_decimal(&mut word, self.pattern.id() as u64);
        v.push(word);
        assert(texts(v@) =~= texts(old(v)@).push(pattern_word(self.pattern)));
    }

    /// The value of the test source's property `pattern`.
    pub fn pattern_value(&self) -> (s: String)
        ensures
            s@ == decimal(self.pattern.spec_id() as nat),
    {
        let mut s = String::new();
        push_decimal(&mut s, self.pattern.id() as u64);
        assert(s@ =~= decimal(self.pattern.spec_id() as nat));
        s
    }

    /// The value of the test source's property `num-buffers`: the low 32
    /// bits of the number, read without sign.
    pub fn num_buffers_value(&self) -> (s: String)
        ensures
            s@ == decimal((self.num_buffers as u32) as nat),
    {
        let mut s = String::new();
        let n = #[verifier::truncate]
        (self.num_buffers as u32);
        push_decimal(&mut s, n as u64);
        assert(s@ =~= decimal((self.num_buffers as u32) as nat));
        s
    }
}

/// The format of the video: its width, its height and its frames per second.
#[derive(Clone, Copy, Debug)]
pub struct VideoCapsOpt {
    pub width: i32,
    pub height: i32,
    pub fps: i32,
}

impl Default for VideoCapsOpt {
    fn default() -> (c: VideoCapsOpt)
        ensures
            c.width == 600,
            c.height == 400,
            c.fps == 30,
    {
        VideoCapsOpt { width: 600, height: 400, fps: 30 }
    }
}

/// The word that says the format.
pub open spec fn caps_word(width: i32, height: i32, fps: i32) -> Seq<char> {
    "video/x-raw,width="@ + signed_decimal(width as int) + ",height="@ + signed_decimal(
        height as int,
    ) + ",framerate="@ + signed_decimal(fps as int) + "/1"@
}

impl VideoCapsOpt {
    /// Adds the word that says the format to the words `v`.
    pub fn write_property_string(&self, v: &mut Vec<String>)
        ensures
            texts(final(v)@) == texts(old(v)@).push(caps_word(self.width, self.height, self.fps)),
    {
        let mut word = "video/x-raw,width=".to_owned();
        push_signed_decimal(&mut word, self.width);
        word.append(",height=");
        push_signed_decimal(&mut word, self.height);
        word.append(",framerate=");
        push_signed_decimal(&mut word, self.fps);
        word.append("/1");
        v.push(word);
        assert(texts(v@) =~= texts(old(v)@).push(caps_word(self.width, self.height, self.fps)));
    }
}

/// The words of the pipeline from the test source to the sink, with the
/// format between them if one is given.
pub open spec fn launch_words(
    pattern: VideoTestSrcPattern,
    caps: Option<(i32, i32, i32)>,
) -> Seq<Seq<char>> {
    match caps {
        Some((width, height, fps)) => seq![
            "videotestsrc"@,
            pattern_word(pattern),
            "!"@,
            caps_word(width, height, fps),
            "!"@,
            "autovideosink"@,
        ],
        None => seq!["videotestsrc"@, pattern_word(pattern), "!"@, "autovideosink"@],
    }
}

/// The words of the pipeline from the test source to the sink, with the
/// format between them if one is given.
pub fn launch_args(testsrc: &VideoTestSrcOpt, videocaps: Option<&VideoCapsOpt>) -> (args: Vec<
    String,
>)
    ensures
        texts(args@) == launch_words(
            testsrc.pattern,
            match videocaps {
                Some(c) => Some((c.width, c.height, c.fps)),
                None => None,
            },
        ),
{
    let mut args: Vec<String> = Vec::new();
    args.push("videotestsrc".to_owned());
    assert(texts(args@) =~= seq!["videotestsrc"@]);
    testsrc.write_property_string(&mut args);
    let ghost two = texts(args@);
    args.push("!".to_owned());
    assert(texts(args@) =~= two.push("!"@));
    match videocaps {
        Some(caps) => {
            caps.write_property_string(&mut args);
            let ghost four = texts(args@);
            args.push("!".to_owned());
            assert(texts(args@) =~= four.push("!"@));
        },
        None => {},
    }
    let ghost most = texts(args@);
    args.push("autovideosink".to_owned());
    assert(texts(args@) =~= most.push("autovideosink"@));
    assert(texts(args@) =~= launch_words(
        testsrc.pattern,
        match videocaps {
            Some(c) => Some((c.width, c.height, c.fps)),
            None => None,
        },
    ));
    args
}

} // verus!
