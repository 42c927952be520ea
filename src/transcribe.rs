use vstd::prelude::*;
use vstd::string::*;

verus! {

/// The longest stretch of audio, in milliseconds, that one decode covers.
pub const DECODE_DURATION_MS: u32 = 30000;

/// Threads that one decode may use.
pub const DECODE_THREADS: u32 = 8;

/// The configuration handed to every decode call; it is the same for every
/// call.
#[derive(Clone, Copy, Debug, PartialEq, Eq, Structural)]
pub struct DecodeParameters {
    pub n_threads: u32,
    pub duration_ms: u32,
    pub print_progress: bool,
    pub print_special: bool,
    pub print_realtime: bool,
    pub print_timestamps: bool,
    pub suppress_blank: bool,
    pub token_timestamps: bool,
    pub no_context: bool,
}

/// The one configuration used by every decode.
pub open spec fn fixed_decode_parameters() -> DecodeParameters {
    DecodeParameters {
        n_threads: DECODE_THREADS,
        duration_ms: DECODE_DURATION_MS,
        print_progress: false,
        print_special: false,
        print_realtime: false,
        print_timestamps: false,
        suppress_blank: true,
        token_timestamps: true,
        no_context: true,
    }
}

impl DecodeParameters {
    /// The fixed decode configuration: English, eight threads, a 30 s
    /// ceiling, no printing, blanks suppressed, token timestamps on, no
    /// context carried over from earlier decodes.
    pub fn fixed() -> (r: DecodeParameters)
        ensures
            r == fixed_decode_parameters(),
    {
        DecodeParameters {
            n_threads: DECODE_THREADS,
            duration_ms: DECODE_DURATION_MS,
            print_progress: false,
            print_special: false,
            print_realtime: false,
            print_timestamps: false,
            suppress_blank: true,
            token_timestamps: true,
            no_context: true,
        }
    }

    /// The language that decoding is pinned to.
    pub fn language(&self) -> (r: &'static str)
        ensures
            r@ == "en"@,
    {
        "en"
    }
}

/// The number of samples that the decoder is given out of `n`: the largest
/// even number not above `n`.
pub open spec fn even_len(n: nat) -> nat {
    (n - n % 2) as nat
}

/// The buffer that the decoder is given: `samples` without its last sample
/// where their count is odd.
pub fn decode_input<T: Copy>(samples: &Vec<T>) -> (r: Vec<T>)
    ensures
        r@ == samples@.take(even_len(samples@.len()) as int),
        r@.len() % 2 == 0,
        samples@.len() % 2 == 1 ==> r@.len() == samples@.len() - 1,
        samples@.len() % 2 == 0 ==> r@ == samples@,
{
    let n = samples.len() - samples.len() % 2;
    let mut r: Vec<T> = Vec::new();
    let mut i: usize = 0;
    while i < n
        invariant
            n == even_len(samples@.len()),
            0 <= i <= n <= samples@.len(),
            r@ == samples@.take(i as int),
        decreases n - i,
    {
        r.push(samples[i]);
        i = i + 1;
        proof {
            assert(r@ =~= samples@.take(i as int));
        }
    }
    r
}

/// The concatenation of `parts`, in order.
pub open spec fn concat_all(parts: Seq<Seq<char>>) -> Seq<char>
    decreases parts.len(),
{
    if parts.len() == 0 {
        Seq::<char>::empty()
    } else {
        concat_all(parts.drop_last()) + parts.last()
    }
}

/// The transcript carried by decoded token texts: every token but the first
/// and the last, which are boundary markers, joined in order.
pub open spec fn transcript_of(tokens: Seq<Seq<char>>) -> Seq<char> {
    if tokens.len() < 2 {
        Seq::<char>::empty()
    } else {
        concat_all(tokens.subrange(1, tokens.len() - 1))
    }
}

/// Joins the decoded token texts into the transcript, leaving out the first
/// and the last token.
pub fn transcript_from_tokens(tokens: &Vec<String>) -> (r: String)
    ensures
        r@ == transcript_of(tokens.deep_view()),
{
    let n = tokens.len();
    let mut text = String::new();
    if n < 2 {
        return text;
    }
    let ghost toks = tokens.deep_view();
    let mut i: usize = 1;
    while i < n - 1
        invariant
            n == toks.len(),
            toks == tokens.deep_view(),
            2 <= n,
            1 <= i <= n - 1,
            text@ == concat_all(toks.subrange(1, i as int)),
        decreases n - 1 - i,
    {
        text.append(tokens[i].as_str());
        proof {
            assert(toks.subrange(1, i + 1).drop_last() =~= toks.subrange(1, i as int));
            assert(toks[i as int] == tokens@[i as int]@);
        }
        i = i + 1;
    }
    text
}

} // verus!
