//! RFC 2047 encoded words: `=?charset?encoding?text?=`.
use crate::b64::{base64_bytes_of, base64_decode, base64_encode, base64_len, base64_of, is_base64_char};
use crate::qcodec::{
    is_q_output_char, lemma_q_encoded_chars, lemma_q_round_trip, q_decode, q_decoded, q_encode,
    q_encoded,
};
use crate::text::{chars_of, string_from_utf8, string_of};
use vstd::string::StringExecFns;
use vstd::prelude::*;
use vstd::utf8::*;

verus! {

/// The place in a header an encoded word is written to; it decides which
/// characters may stand unescaped in the encoded text.
#[derive(Clone, Copy, Debug, PartialEq, Eq, Structural, Hash)]
pub enum EncodedWordContext {
    Text,
    Comment,
    Phrase,
}

#[derive(Clone, Copy, Debug, PartialEq, Eq, Structural, Hash)]
pub enum EncodedWordEncoding {
    Base64,
    QuotedPrintable,
}

#[derive(Clone, Copy, Debug, PartialEq, Eq, Structural, Hash)]
pub enum EncodedWordError {
    /// The text does not match the encoded-word grammar of its context.
    InvalidEncodedWord,
    /// The delimiters of an encoded word cannot be found.
    Malformed,
    /// A charset other than `utf8`.
    UnsupportedCharset,
    /// An encoding other than `B` or `Q`.
    UnknownEncoding,
    /// The encoded text does not decode to UTF-8 text.
    BrokenEncoding,
}

/// The longest encoded word RFC 2047 allows.
pub const MAX_WORD_LEN: usize = 75;

/// The longest encoded text that fits into one word beside `=?utf8?X?` and `?=`.
pub const MAX_DATA_LEN: usize = 64;

pub open spec fn is_especial(c: char) -> bool {
    c == '(' || c == ')' || c == '<' || c == '>' || c == '@' || c == ',' || c == ';' || c == ':'
        || c == '"' || c == '/' || c == '[' || c == ']' || c == '?' || c == '.' || c == '='
}

/// A character of a charset or encoding token: printable ASCII, no especial.
pub open spec fn is_token_char(c: char) -> bool {
    '!' <= c && c <= '~' && !is_especial(c)
}

pub open spec fn is_token(s: Seq<char>) -> bool {
    s.len() > 0 && forall|i: int| 0 <= i < s.len() ==> is_token_char(#[trigger] s[i])
}

/// A character allowed in the encoded text of a word written to the context.
pub open spec fn is_text_char(c: char, ctx: EncodedWordContext) -> bool {
    match ctx {
        EncodedWordContext::Text => '!' <= c && c <= '~' && c != '?',
        EncodedWordContext::Comment => '!' <= c && c <= '~' && c != '?' && c != '(' && c != ')'
            && c != '\\',
        EncodedWordContext::Phrase => ('0' <= c && c <= '9') || ('A' <= c && c <= 'Z') || ('a'
            <= c && c <= 'z') || c == '!' || c == '*' || c == '+' || c == '-' || c == '/' || c
            == '=' || c == '_',
    }
}

/// Encoded text; it may be empty, which is how an empty string is written.
pub open spec fn is_encoded_text(s: Seq<char>, ctx: EncodedWordContext) -> bool {
    forall|i: int| 0 <= i < s.len() ==> is_text_char(#[trigger] s[i], ctx)
}

/// The first `?` in `s` at or after `from`.
pub open spec fn find_qm(s: Seq<char>, from: int) -> Option<int>
    decreases s.len() - from,
    when from >= 0
{
    if from >= s.len() {
        None
    } else if s[from] == '?' {
        Some(from)
    } else {
        find_qm(s, from + 1)
    }
}

/// The encoded-word grammar: `=?`, a charset token, `?`, an encoding token,
/// `?`, encoded text for the context, `?=`; at most 75 characters.
pub open spec fn is_encoded_word(s: Seq<char>, ctx: EncodedWordContext) -> bool {
    &&& 8 <= s.len() <= MAX_WORD_LEN
    &&& s[0] == '=' && s[1] == '?' && s[s.len() - 2] == '?' && s[s.len() - 1] == '='
    &&& match find_qm(s, 2) {
        Some(p) => match find_qm(s, p + 1) {
            Some(q) => {
                &&& q + 1 <= s.len() - 2
                &&& is_token(s.subrange(2, p))
                &&& is_token(s.subrange(p + 1, q))
                &&& is_encoded_text(s.subrange(q + 1, s.len() - 2), ctx)
            },
            None => false,
        },
        None => false,
    }
}

pub open spec fn charset_utf8() -> Seq<char> {
    seq!['u', 't', 'f', '8']
}

pub open spec fn encoding_tag(e: EncodedWordEncoding) -> char {
    match e {
        EncodedWordEncoding::Base64 => 'B',
        EncodedWordEncoding::QuotedPrintable => 'Q',
    }
}

/// The encoded text of some bytes.
pub open spec fn encoded_data(e: EncodedWordEncoding, b: Seq<u8>) -> Seq<char> {
    match e {
        EncodedWordEncoding::Base64 => base64_of(b),
        EncodedWordEncoding::QuotedPrintable => q_encoded(b),
    }
}

/// The length of the encoded text of some bytes.
pub open spec fn encoded_len(e: EncodedWordEncoding, b: Seq<u8>) -> nat {
    match e {
        EncodedWordEncoding::Base64 => base64_len(b.len()),
        EncodedWordEncoding::QuotedPrintable => q_encoded(b).len(),
    }
}

/// `=?utf8?<tag>?<data>?=`
pub open spec fn word_chars(tag: char, data: Seq<char>) -> Seq<char> {
    seq!['=', '?', 'u', 't', 'f', '8', '?', tag, '?'] + data + seq!['?', '=']
}

/// The encoded text of a word `=?utf8?X?<data>?=`.
pub open spec fn word_data(s: Seq<char>) -> Seq<char> {
    s.subrange(9, s.len() - 2)
}

/// Decoded bytes read as UTF-8 text.
pub open spec fn bytes_to_text(b: Option<Seq<u8>>) -> Result<Seq<char>, EncodedWordError> {
    match b {
        Some(b) => if valid_utf8(b) {
            Ok(decode_utf8(b))
        } else {
            Err(EncodedWordError::BrokenEncoding)
        },
        None => Err(EncodedWordError::BrokenEncoding),
    }
}

/// Decoding once the three fields are found.
pub open spec fn decode_fields(charset: Seq<char>, encoding: Seq<char>, data: Seq<char>) -> Result<
    Seq<char>,
    EncodedWordError,
> {
    if charset != charset_utf8() {
        Err(EncodedWordError::UnsupportedCharset)
    } else if encoding == seq!['B'] {
        bytes_to_text(base64_bytes_of(data))
    } else if encoding == seq!['Q'] {
        bytes_to_text(q_decoded(data))
    } else {
        Err(EncodedWordError::UnknownEncoding)
    }
}

/// Decoding of an encoded word: the charset runs from after `=?` to the next
/// `?`, the encoding to the `?` after it, and the data from there to the
/// closing `?=`, whatever it holds.
pub open spec fn decoded_word(s: Seq<char>) -> Result<Seq<char>, EncodedWordError> {
    if s.len() < 8 {
        Err(EncodedWordError::Malformed)
    } else {
        match find_qm(s, 2) {
            Some(p) => match find_qm(s, p + 1) {
                Some(q) => if q + 1 > s.len() - 2 {
                    Err(EncodedWordError::Malformed)
                } else {
                    decode_fields(
                        s.subrange(2, p),
                        s.subrange(p + 1, q),
                        s.subrange(q + 1, s.len() - 2),
                    )
                },
                None => Err(EncodedWordError::Malformed),
            },
            None => Err(EncodedWordError::Malformed),
        }
    }
}

/// The charset field of a text in the encoded-word grammar.
pub open spec fn charset_field(s: Seq<char>) -> Seq<char> {
    s.subrange(2, find_qm(s, 2).unwrap())
}

pub open spec fn ok_text(r: Result<Seq<char>, EncodedWordError>) -> Seq<char> {
    match r {
        Ok(t) => t,
        Err(_) => seq![],
    }
}

/// The texts of a sequence of words, decoded and concatenated.
pub open spec fn concat_decoded(ws: Seq<EncodedWord>) -> Seq<char>
    decreases ws.len(),
{
    if ws.len() == 0 {
        seq![]
    } else {
        concat_decoded(ws.drop_last()) + ok_text(decoded_word(ws.last()@))
    }
}

/// The words written one after another, separated by a space.
pub open spec fn joined(ws: Seq<EncodedWord>) -> Seq<char>
    decreases ws.len(),
{
    if ws.len() == 0 {
        seq![]
    } else if ws.len() == 1 {
        ws[0]@
    } else {
        joined(ws.drop_last()) + seq![' '] + ws.last()@
    }
}

/// The result of `EncodedWord::encode_word`: at least one word, each in the
/// context and decoding to UTF-8 text, which together give back the input;
/// where the whole input fits into one word, exactly that word.
pub open spec fn encode_word_post(
    text: Seq<char>,
    encoding: EncodedWordEncoding,
    ctx: EncodedWordContext,
    r: Seq<EncodedWord>,
) -> bool {
    &&& r.len() >= 1
    &&& forall|i: int| 0 <= i < r.len() ==> (#[trigger] r[i]).context_spec() == ctx
    &&& forall|i: int| 0 <= i < r.len() ==> is_encoded_word((#[trigger] r[i])@, ctx)
    &&& forall|i: int| 0 <= i < r.len() ==> decoded_word((#[trigger] r[i])@) is Ok
    &&& forall|i: int|
        0 <= i < r.len() ==> (#[trigger] r[i])@ == word_chars(
            encoding_tag(encoding),
            word_data(r[i]@),
        )
    &&& concat_decoded(r) == text
    &&& encoded_len(encoding, encode_utf8(text)) <= MAX_DATA_LEN ==> {
        &&& r.len() == 1
        &&& r[0]@ == word_chars(encoding_tag(encoding), encoded_data(encoding, encode_utf8(text)))
    }
}

/// The encoding field of a text in the encoded-word grammar.
pub open spec fn encoding_field(s: Seq<char>) -> Seq<char> {
    s.subrange(find_qm(s, 2).unwrap() + 1, find_qm(s, find_qm(s, 2).unwrap() + 1).unwrap())
}

/// Text whose encoding fits into one word is encoded as one word, and that
/// word decodes back to the text, in either encoding.
pub proof fn lemma_round_trip(
    text: Seq<char>,
    encoding: EncodedWordEncoding,
    ctx: EncodedWordContext,
    words: Seq<EncodedWord>,
)
    requires
        encode_word_post(text, encoding, ctx, words),
        encoded_len(encoding, encode_utf8(text)) <= MAX_DATA_LEN,
    ensures
        words.len() == 1,
        decoded_word(words[0]@) == Ok::<Seq<char>, EncodedWordError>(text),
{
    assert(words.drop_last() =~= Seq::<EncodedWord>::empty());
    assert(concat_decoded(Seq::<EncodedWord>::empty()) =~= Seq::<char>::empty());
    assert(concat_decoded(words) =~= ok_text(decoded_word(words[0]@)));
}

/// A word in the grammar whose charset is not `utf8` fails to decode with
/// `UnsupportedCharset`.
pub proof fn lemma_other_charset_unsupported(s: Seq<char>, ctx: EncodedWordContext)
    requires
        is_encoded_word(s, ctx),
        charset_field(s) != charset_utf8(),
    ensures
        decoded_word(s) == Err::<Seq<char>, EncodedWordError>(EncodedWordError::UnsupportedCharset),
{
}

/// A word in the grammar with the `utf8` charset whose encoding is neither
/// `B` nor `Q` fails to decode with `UnknownEncoding`.
pub proof fn lemma_unknown_encoding(s: Seq<char>, ctx: EncodedWordContext)
    requires
        is_encoded_word(s, ctx),
        charset_field(s) == charset_utf8(),
        encoding_field(s) != seq!['B'],
        encoding_field(s) != seq!['Q'],
    ensures
        decoded_word(s) == Err::<Seq<char>, EncodedWordError>(EncodedWordError::UnknownEncoding),
{
}

proof fn lemma_find_qm_at(s: Seq<char>, from: int, to: int)
    requires
        0 <= from <= to < s.len(),
        s[to] == '?',
        forall|i: int| from <= i < to ==> s[i] != '?',
    ensures
        find_qm(s, from) == Some(to),
    decreases to - from,
{
    if from < to {
        lemma_find_qm_at(s, from + 1, to);
    }
}

proof fn lemma_q_output_is_text(c: char, ctx: EncodedWordContext)
    requires
        is_q_output_char(c),
    ensures
        is_text_char(c, ctx),
{
}

/// A word made of the `utf8` charset, a tag and data of output characters
/// fits the grammar and decodes by the tag.
proof fn lemma_made_word(tag: char, data: Seq<char>, ctx: EncodedWordContext)
    requires
        tag == 'B' || tag == 'Q',
        data.len() <= MAX_DATA_LEN,
        forall|i: int| 0 <= i < data.len() ==> is_q_output_char(#[trigger] data[i]),
    ensures
        is_encoded_word(word_chars(tag, data), ctx),
        decoded_word(word_chars(tag, data)) == decode_fields(charset_utf8(), seq![tag], data),
{
    let s = word_chars(tag, data);
    let n = s.len();
    assert(s[2] == 'u' && s[3] == 't' && s[4] == 'f' && s[5] == '8' && s[6] == '?');
    assert(s[7] == tag && s[8] == '?');
    lemma_find_qm_at(s, 2, 6);
    lemma_find_qm_at(s, 7, 8);
    assert(s.subrange(2, 6) =~= charset_utf8());
    assert(s.subrange(7, 8) =~= seq![tag]);
    assert(s.subrange(9, n - 2) =~= data);
    assert forall|i: int| 0 <= i < data.len() implies is_text_char(#[trigger] data[i], ctx) by {
        lemma_q_output_is_text(data[i], ctx);
    }
    assert(is_token(s.subrange(2, 6)));
    assert(is_token(s.subrange(7, 8)));
}

/// Within any four consecutive positions of valid UTF-8 one is a character
/// boundary (or the end).
proof fn lemma_boundary_near(b: Seq<u8>, j: int)
    requires
        valid_utf8(b),
        0 <= j <= b.len(),
    ensures
        exists|k: int| j <= k <= j + 3 && k <= b.len() && is_char_boundary(b, k),
    decreases b.len(),
{
    if j == 0 {
        assert(is_char_boundary(b, 0));
    } else {
        let l = length_of_first_scalar(b);
        assert(1 <= l <= 4 && l <= b.len());
        if j <= l {
            assert(pop_first_scalar(b).len() == b.len() - l);
            assert(is_char_boundary(pop_first_scalar(b), 0));
            assert(is_char_boundary(b, l));
        } else {
            lemma_boundary_near(pop_first_scalar(b), j - l);
            let k = choose|k: int|
                j - l <= k <= j - l + 3 && k <= pop_first_scalar(b).len() && is_char_boundary(
                    pop_first_scalar(b),
                    k,
                );
            assert(is_char_boundary(b, k + l));
        }
    }
}

/// Cutting valid UTF-8 at a character boundary gives two valid pieces whose
/// texts make up the whole.
proof fn lemma_split_at(b: Seq<u8>, start: int, end: int)
    requires
        0 <= start < end <= b.len(),
        valid_utf8(b.subrange(start, b.len() as int)),
        is_char_boundary(b.subrange(start, b.len() as int), end - start),
    ensures
        valid_utf8(b.subrange(start, end)),
        valid_utf8(b.subrange(end, b.len() as int)),
        decode_utf8(b.subrange(start, b.len() as int)) == decode_utf8(b.subrange(start, end))
            + decode_utf8(b.subrange(end, b.len() as int)),
{
    let rest = b.subrange(start, b.len() as int);
    let m = end - start;
    valid_utf8_split(rest, m);
    decode_utf8_split(rest, m);
    assert(rest.subrange(0, m) =~= b.subrange(start, end));
    assert(rest.subrange(m, rest.len() as int) =~= b.subrange(end, b.len() as int));
}

pub open spec fn bytes_view(o: Option<Vec<u8>>) -> Option<Seq<u8>> {
    match o {
        Some(v) => Some(v@),
        None => None,
    }
}

/// Reads decoded bytes as UTF-8 text.
fn bytes_into_text(raw: Option<Vec<u8>>) -> (r: Result<String, EncodedWordError>)
    ensures
        match r {
            Ok(t) => bytes_to_text(bytes_view(raw)) == Ok::<Seq<char>, EncodedWordError>(t@),
            Err(e) => bytes_to_text(bytes_view(raw)) == Err::<Seq<char>, EncodedWordError>(e),
        },
{
    match raw {
        Some(b) => match string_from_utf8(b) {
            Ok(t) => Ok(t),
            Err(_) => Err(EncodedWordError::BrokenEncoding),
        },
        None => Err(EncodedWordError::BrokenEncoding),
    }
}

/// An RFC 2047 encoded word, always valid for its context.
#[derive(Debug, Hash)]
pub struct EncodedWord {
    inner: String,
    ctx: EncodedWordContext,
}

impl View for EncodedWord {
    type V = Seq<char>;

    closed spec fn view(&self) -> Seq<char> {
        self.inner@
    }
}

/// The first `?` in `s` at or after `from`.
fn find_question_mark(s: &Vec<char>, from: usize) -> (r: Option<usize>)
    requires
        from <= s@.len(),
    ensures
        match r {
            Some(i) => find_qm(s@, from as int) == Some(i as int) && from <= i < s@.len() && s@[i as int] == '?',
            None => find_qm(s@, from as int) is None,
        },
{
    let mut i = from;
    while i < s.len()
        invariant
            from <= i <= s@.len(),
            find_qm(s@, from as int) == find_qm(s@, i as int),
        decreases s@.len() - i,
    {
        if s[i] == '?' {
            return Some(i);
        }
        i += 1;
    }
    None
}

/// The characters of `s` from `from` up to `to`.
fn sub_chars(s: &Vec<char>, from: usize, to: usize) -> (r: Vec<char>)
    requires
        from <= to <= s@.len(),
    ensures
        r@ == s@.subrange(from as int, to as int),
{
    let mut r: Vec<char> = Vec::new();
    let mut i = from;
    while i < to
        invariant
            from <= i <= to <= s@.len(),
            r@ == s@.subrange(from as int, i as int),
        decreases to - i,
    {
        r.push(s[i]);
        i += 1;
        assert(r@ =~= s@.subrange(from as int, i as int));
    }
    r
}

/// The bytes of `s` from `from` up to `to`.
fn sub_bytes(s: &Vec<u8>, from: usize, to: usize) -> (r: Vec<u8>)
    requires
        from <= to <= s@.len(),
    ensures
        r@ == s@.subrange(from as int, to as int),
{
    let mut r: Vec<u8> = Vec::new();
    let mut i = from;
    while i < to
        invariant
            from <= i <= to <= s@.len(),
            r@ == s@.subrange(from as int, i as int),
        decreases to - i,
    {
        r.push(s[i]);
        i += 1;
        assert(r@ =~= s@.subrange(from as int, i as int));
    }
    r
}

fn is_token_char_exec(c: char) -> (r: bool)
    ensures
        r == is_token_char(c),
{
    '!' <= c && c <= '~' && !(c == '(' || c == ')' || c == '<' || c == '>' || c == '@' || c == ','
        || c == ';' || c == ':' || c == '"' || c == '/' || c == '[' || c == ']' || c == '?' || c
        == '.' || c == '=')
}

fn is_text_char_exec(c: char, ctx: EncodedWordContext) -> (r: bool)
    ensures
        r == is_text_char(c, ctx),
{
    match ctx {
        EncodedWordContext::Text => '!' <= c && c <= '~' && c != '?',
        EncodedWordContext::Comment => '!' <= c && c <= '~' && c != '?' && c != '(' && c != ')'
            && c != '\\',
        EncodedWordContext::Phrase => ('0' <= c && c <= '9') || ('A' <= c && c <= 'Z') || ('a'
            <= c && c <= 'z') || c == '!' || c == '*' || c == '+' || c == '-' || c == '/' || c
            == '=' || c == '_',
    }
}

/// Whether `s[from..to]` is a token.
fn is_token_range(s: &Vec<char>, from: usize, to: usize) -> (r: bool)
    requires
        from <= to <= s@.len(),
    ensures
        r == is_token(s@.subrange(from as int, to as int)),
{
    if from == to {
        return false;
    }
    let mut i = from;
    while i < to
        invariant
            from <= i <= to <= s@.len(),
            forall|k: int| from <= k < i ==> is_token_char(#[trigger] s@[k]),
        decreases to - i,
    {
        if !is_token_char_exec(s[i]) {
            assert(s@.subrange(from as int, to as int)[i - from] == s@[i as int]);
            return false;
        }
        i += 1;
    }
    assert forall|k: int| 0 <= k < to - from implies is_token_char(
        #[trigger] s@.subrange(from as int, to as int)[k],
    ) by {
        assert(s@.subrange(from as int, to as int)[k] == s@[from + k]);
    }
    true
}

/// Whether `s[from..to]` is encoded text for the context.
fn is_text_range(s: &Vec<char>, from: usize, to: usize, ctx: EncodedWordContext) -> (r: bool)
    requires
        from <= to <= s@.len(),
    ensures
        r == is_encoded_text(s@.subrange(from as int, to as int), ctx),
{
    let mut i = from;
    while i < to
        invariant
            from <= i <= to <= s@.len(),
            forall|k: int| from <= k < i ==> is_text_char(#[trigger] s@[k], ctx),
        decreases to - i,
    {
        if !is_text_char_exec(s[i], ctx) {
            assert(s@.subrange(from as int, to as int)[i - from] == s@[i as int]);
            return false;
        }
        i += 1;
    }
    assert forall|k: int| 0 <= k < to - from implies is_text_char(
        #[trigger] s@.subrange(from as int, to as int)[k],
        ctx,
    ) by {
        assert(s@.subrange(from as int, to as int)[k] == s@[from + k]);
    }
    true
}

/// Whether the characters form an encoded word valid in the context.
pub fn is_encoded_word_chars(s: &Vec<char>, ctx: EncodedWordContext) -> (r: bool)
    ensures
        r == is_encoded_word(s@, ctx),
{
    let n = s.len();
    if n < 8 || n > MAX_WORD_LEN {
        return false;
    }
    if !(s[0] == '=' && s[1] == '?' && s[n - 2] == '?' && s[n - 1] == '=') {
        return false;
    }
    match find_question_mark(s, 2) {
        Some(p) => match find_question_mark(s, p + 1) {
            Some(q) => {
                if q + 1 > n - 2 {
                    return false;
                }
                is_token_range(s, 2, p) && is_token_range(s, p + 1, q) && is_text_range(
                    s,
                    q + 1,
                    n - 2,
                    ctx,
                )
            },
            None => false,
        },
        None => false,
    }
}


impl EncodedWord {
    #[verifier::type_invariant]
    spec fn is_valid(&self) -> bool {
        is_encoded_word(self.inner@, self.ctx)
    }

    pub closed spec fn context_spec(&self) -> EncodedWordContext {
        self.ctx
    }

    pub fn clone(&self) -> (r: EncodedWord)
        ensures
            r@ == self@,
            r.context_spec() == self.context_spec(),
    {
        proof {
            use_type_invariant(self);
        }
        EncodedWord { inner: self.inner.clone(), ctx: self.ctx }
    }

    /// Takes text that is already encoded, if it is an encoded word valid in the context.
    pub fn parse(already_encoded: String, ctx: EncodedWordContext) -> (r: Result<
        EncodedWord,
        EncodedWordError,
    >)
        ensures
            r is Ok <==> is_encoded_word(already_encoded@, ctx),
            match r {
                Ok(w) => w@ == already_encoded@ && w.context_spec() == ctx,
                Err(e) => e == EncodedWordError::InvalidEncodedWord,
            },
    {
        let chars = chars_of(already_encoded.as_str());
        if is_encoded_word_chars(&chars, ctx) {
            Ok(EncodedWord { inner: already_encoded, ctx })
        } else {
            Err(EncodedWordError::InvalidEncodedWord)
        }
    }

    /// The word `=?utf8?<tag>?<data>?=` for the encoded bytes of `chunk`.
    fn from_chunk(chunk: &Vec<u8>, encoding: EncodedWordEncoding, ctx: EncodedWordContext) -> (w:
        EncodedWord)
        requires
            encoded_len(encoding, chunk@) <= MAX_DATA_LEN,
            valid_utf8(chunk@),
        ensures
            w@ == word_chars(encoding_tag(encoding), encoded_data(encoding, chunk@)),
            word_data(w@) == encoded_data(encoding, chunk@),
            w.context_spec() == ctx,
            decoded_word(w@) == Ok::<Seq<char>, EncodedWordError>(decode_utf8(chunk@)),
    {
        let data = match encoding {
            EncodedWordEncoding::Base64 => {
                let b = base64_encode(chunk);
                let d = chars_of(b.as_str());
                assert(d@ == base64_of(chunk@) && base64_bytes_of(d@) == Some(chunk@));
                assert forall|i: int| 0 <= i < d@.len() implies is_q_output_char(#[trigger] d@[i]) by {
                    assert(is_base64_char(b@[i]));
                }
                d
            },
            EncodedWordEncoding::QuotedPrintable => {
                proof {
                    lemma_q_encoded_chars(chunk@);
                    lemma_q_round_trip(chunk@);
                }
                q_encode(chunk)
            },
        };
        let tag = match encoding {
            EncodedWordEncoding::Base64 => 'B',
            EncodedWordEncoding::QuotedPrintable => 'Q',
        };
        let mut cs: Vec<char> = Vec::new();
        cs.push('=');
        cs.push('?');
        cs.push('u');
        cs.push('t');
        cs.push('f');
        cs.push('8');
        cs.push('?');
        cs.push(tag);
        cs.push('?');
        let mut i: usize = 0;
        while i < data.len()
            invariant
                i <= data@.len(),
                cs@ == seq!['=', '?', 'u', 't', 'f', '8', '?', tag, '?'] + data@.subrange(0, i as int),
            decreases data@.len() - i,
        {
            cs.push(data[i]);
            i += 1;
            assert(cs@ =~= seq!['=', '?', 'u', 't', 'f', '8', '?', tag, '?'] + data@.subrange(0, i as int));
        }
        cs.push('?');
        cs.push('=');
        assert(cs@ =~= word_chars(tag, data@));
        assert(word_data(cs@) =~= data@);
        proof {
            lemma_made_word(tag, data@, ctx);
            assert(tag == encoding_tag(encoding));
            assert(q_decoded(q_encoded(chunk@)) == Some(chunk@)) by {
                lemma_q_round_trip(chunk@);
            }
            assert(seq!['Q'][0] != seq!['B'][0]);
            assert(decode_fields(charset_utf8(), seq![tag], data@) == bytes_to_text(Some(chunk@)));
        }
        let inner = string_of(&cs);
        EncodedWord { inner, ctx }
    }

    /// Encodes UTF-8 text as one or more encoded words. Text whose encoded
    /// form fits into one word gives exactly that word; longer text is cut at
    /// character boundaries into pieces of at most 48 bytes (base64) or 21
    /// bytes ("Q"), one word each.
    pub fn encode_word(word: &str, encoding: EncodedWordEncoding, ctx: EncodedWordContext) -> (r:
        Vec<EncodedWord>)
        ensures
            encode_word_post(word@, encoding, ctx, r@),
    {
        let bytes = word.as_bytes_vec();
        let ghost text = word@;
        proof {
            encode_utf8_valid_utf8(text);
            encode_utf8_decode_utf8(text);
        }
        let n = bytes.len();
        let fits = match encoding {
            EncodedWordEncoding::Base64 => n <= 48,
            EncodedWordEncoding::QuotedPrintable => q_encode(&bytes).len() <= MAX_DATA_LEN,
        };
        assert(fits == (encoded_len(encoding, bytes@) <= MAX_DATA_LEN));
        let mut words: Vec<EncodedWord> = Vec::new();
        if fits {
            let w = EncodedWord::from_chunk(&bytes, encoding, ctx);
            proof {
                use_type_invariant(&w);
            }
            words.push(w);
            proof {
                assert(words@.drop_last() =~= Seq::<EncodedWord>::empty());
                assert(words@.last() == w);
                assert(concat_decoded(Seq::<EncodedWord>::empty()) == Seq::<char>::empty());
                assert(concat_decoded(words@) =~= text);
            }
            return words;
        }
        let limit: usize = match encoding {
            EncodedWordEncoding::Base64 => 45,
            EncodedWordEncoding::QuotedPrintable => 18,
        };
        let mut start: usize = 0;
        assert(bytes@.subrange(0, n as int) =~= bytes@);
        while start < n
            invariant
                n == bytes@.len(),
                n > 0,
                limit == 45 || limit == 18,
                encoding == EncodedWordEncoding::Base64 ==> limit == 45,
                encoding == EncodedWordEncoding::QuotedPrintable ==> limit == 18,
                start <= n,
                start > 0 ==> words@.len() >= 1,
                valid_utf8(bytes@.subrange(start as int, n as int)),
                concat_decoded(words@) + decode_utf8(bytes@.subrange(start as int, n as int)) == text,
                forall|i: int| 0 <= i < words@.len() ==> (#[trigger] words@[i]).context_spec() == ctx,
                forall|i: int| 0 <= i < words@.len() ==> is_encoded_word((#[trigger] words@[i])@, ctx),
                forall|i: int| 0 <= i < words@.len() ==> decoded_word((#[trigger] words@[i])@) is Ok,
                forall|i: int|
                    0 <= i < words@.len() ==> (#[trigger] words@[i])@ == word_chars(
                        encoding_tag(encoding),
                        word_data(words@[i]@),
                    ),
            decreases n - start,
        {
            let end = EncodedWord::chunk_end(&bytes, start, limit);
            let chunk = sub_bytes(&bytes, start, end);
            proof {
                lemma_split_at(bytes@, start as int, end as int);
                if encoding == EncodedWordEncoding::QuotedPrintable {
                    lemma_q_encoded_chars(chunk@);
                } else {
                    assert(chunk@.len() <= 48);
                    assert((chunk@.len() + 2) / 3 <= 16);
                }
            }
            let w = EncodedWord::from_chunk(&chunk, encoding, ctx);
            proof {
                use_type_invariant(&w);
            }
            let ghost before = words@;
            words.push(w);
            proof {
                assert(words@.drop_last() =~= before);
                assert(words@.last() == w);
                assert forall|i: int| 0 <= i < words@.len() implies is_encoded_word(
                    (#[trigger] words@[i])@,
                    ctx,
                ) && decoded_word(words@[i]@) is Ok && words@[i].context_spec() == ctx
                    && words@[i]@ == word_chars(encoding_tag(encoding), word_data(words@[i]@)) by {
                    if i < before.len() {
                        assert(words@[i] == before[i]);
                    }
                }
            }
            start = end;
        }
        proof {
            assert(bytes@.subrange(n as int, n as int) =~= Seq::<u8>::empty());
            assert(concat_decoded(words@) + Seq::<char>::empty() =~= concat_decoded(words@));
        }
        words
    }

    /// Where the piece of valid UTF-8 that begins at `start` ends: `limit`
    /// bytes on, or up to three more to reach a character boundary.
    fn chunk_end(bytes: &Vec<u8>, start: usize, limit: usize) -> (end: usize)
        requires
            start < bytes@.len(),
            1 <= limit <= 45,
            valid_utf8(bytes@.subrange(start as int, bytes@.len() as int)),
        ensures
            start < end <= bytes@.len(),
            end - start <= limit + 3,
            is_char_boundary(bytes@.subrange(start as int, bytes@.len() as int), end - start),
    {
        let n = bytes.len();
        let ghost rest = bytes@.subrange(start as int, n as int);
        let mut end: usize = if n - start > limit { start + limit } else { n };
        proof {
            lemma_boundary_near(rest, end - start);
        }
        let ghost k = choose|k: int|
            end - start <= k <= end - start + 3 && k <= rest.len() && is_char_boundary(rest, k);
        while end < n && 0x80 <= bytes[end] && bytes[end] <= 0xbf
            invariant
                n == bytes@.len(),
                rest == bytes@.subrange(start as int, n as int),
                valid_utf8(rest),
                start < end <= n,
                end - start <= k <= rest.len(),
                k <= limit + 3,
                is_char_boundary(rest, k),
            decreases n - end,
        {
            proof {
                assert(rest[end - start] == bytes@[end as int]);
                if end - start == k && k < rest.len() {
                    is_char_boundary_iff_not_is_continuation_byte(rest, k);
                }
            }
            end += 1;
        }
        proof {
            let m = end - start;
            if end < n {
                assert(rest[m] == bytes@[end as int]);
                is_char_boundary_iff_not_is_continuation_byte(rest, m);
            } else {
                is_char_boundary_start_end_of_seq(rest);
            }
        }
        end
    }

    pub fn context(&self) -> (r: EncodedWordContext)
        ensures
            r == self.context_spec(),
    {
        self.ctx
    }

    /// The encoded word's text.
    pub fn as_str(&self) -> (r: &str)
        ensures
            r@ == self@,
    {
        self.inner.as_str()
    }

    /// Decodes the word back to text.
    pub fn decode_word(&self) -> (r: Result<String, EncodedWordError>)
        ensures
            match r {
                Ok(t) => decoded_word(self@) == Ok::<Seq<char>, EncodedWordError>(t@),
                Err(e) => decoded_word(self@) == Err::<Seq<char>, EncodedWordError>(e),
            },
    {
        let s = chars_of(self.inner.as_str());
        let n = s.len();
        if n < 8 {
            return Err(EncodedWordError::Malformed);
        }
        let p = match find_question_mark(&s, 2) {
            Some(p) => p,
            None => return Err(EncodedWordError::Malformed),
        };
        let q = match find_question_mark(&s, p + 1) {
            Some(q) => q,
            None => return Err(EncodedWordError::Malformed),
        };
        if q + 1 > n - 2 {
            return Err(EncodedWordError::Malformed);
        }
        let ghost charset = s@.subrange(2, p as int);
        let ghost enc = s@.subrange(p + 1, q as int);
        if !(p == 6 && s[2] == 'u' && s[3] == 't' && s[4] == 'f' && s[5] == '8') {
            assert(charset != charset_utf8()) by {
                if charset == charset_utf8() {
                    assert(charset.len() == 4);
                    assert(charset[0] == s@[2] && charset[1] == s@[3] && charset[2] == s@[4]
                        && charset[3] == s@[5]);
                    assert(charset_utf8()[0] == 'u' && charset_utf8()[1] == 't');
                    assert(charset_utf8()[2] == 'f' && charset_utf8()[3] == '8');
                }
            }
            return Err(EncodedWordError::UnsupportedCharset);
        }
        assert(charset =~= charset_utf8());
        let data = sub_chars(&s, q + 1, n - 2);
        assert(decoded_word(s@) == decode_fields(charset, enc, data@));
        if q == p + 2 && s[p + 1] == 'B' {
            assert(enc =~= seq!['B']);
            let d = string_of(&data);
            bytes_into_text(base64_decode(d.as_str()))
        } else if q == p + 2 && s[p + 1] == 'Q' {
            assert(enc =~= seq!['Q']);
            assert(enc[0] != seq!['B'][0]);
            bytes_into_text(q_decode(&data))
        } else {
            assert(enc != seq!['B'] && enc != seq!['Q']) by {
                assert(seq!['B'].len() == 1 && seq!['B'][0] == 'B');
                assert(seq!['Q'].len() == 1 && seq!['Q'][0] == 'Q');
                if q == p + 2 {
                    assert(enc[0] == s@[p + 1]);
                } else {
                    assert(enc.len() != 1);
                }
            }
            Err(EncodedWordError::UnknownEncoding)
        }
    }

    /// Appends the encoded words of `word` to `handle`, separated by spaces.
    pub fn write_into(
        handle: &mut String,
        word: &str,
        encoding: EncodedWordEncoding,
        ctx: EncodedWordContext,
    )
        ensures
            exists|ws: Seq<EncodedWord>|
                encode_word_post(word@, encoding, ctx, ws) && final(handle)@ == old(handle)@
                    + joined(ws),
    {
        let words = EncodedWord::encode_word(word, encoding, ctx);
        let ghost start = handle@;
        let mut i: usize = 0;
        while i < words.len()
            invariant
                i <= words@.len(),
                handle@ == start + joined(words@.subrange(0, i as int)),
            decreases words@.len() - i,
        {
            if i > 0 {
                handle.append(" ");
            }
            handle.append(words[i].as_str());
            proof {
                reveal_strlit(" ");
                let ws = words@.subrange(0, i as int + 1);
                assert(ws.drop_last() =~= words@.subrange(0, i as int));
                if i == 0 {
                    assert(joined(ws) == ws[0]@);
                }
            }
            i += 1;
        }
        assert(words@.subrange(0, words@.len() as int) =~= words@);
    }
}

} // verus!
