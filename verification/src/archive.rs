//! The WeaveVM archive pipeline: a blob's JSON is brotli-compressed into
//! the calldata of an archive transaction, and the transaction id returned
//! by the node is stored without its JSON quotes.
use vstd::prelude::*;

verus! {

/// What `brotli::CompressorWriter` with the given buffer size, quality and
/// window writes for `input`, or `None` when the encoder reports an error.
pub uninterp spec fn brotli_compressed(input: Seq<u8>, buffer_size: usize, quality: u32, lgwin: u32) -> Option<Seq<u8>>;

/// What `brotli::Decompressor` reads out of `input`, or `None` when the
/// input is not a valid brotli stream.
pub uninterp spec fn brotli_decompressed(input: Seq<u8>, buffer_size: usize) -> Option<Seq<u8>>;

/// Compresses `input` by writing it whole (`std::io::Write::write_all`) into a
/// `brotli::CompressorWriter::new(Vec::new(), buffer_size, quality, lgwin)`
/// and taking the inner vector. The contract claims only that the outcome
/// is a function of the four arguments (named `brotli_compressed`), with
/// `None` where `write_all` returns an error.
#[verifier::external_body]
fn brotli_write_all(input: &[u8], buffer_size: usize, quality: u32, lgwin: u32) -> (r: Option<Vec<u8>>)
    ensures
        r matches Some(out) ==> brotli_compressed(input@, buffer_size, quality, lgwin) == Some(out@),
        r is None ==> brotli_compressed(input@, buffer_size, quality, lgwin) is None,
{
    let mut writer = brotli::CompressorWriter::new(Vec::new(), buffer_size, quality, lgwin);
    match std::io::Write::write_all(&mut writer, input) {
        Ok(()) => Some(writer.into_inner()),
        Err(_) => None,
    }
}

/// Decompresses `input` with `brotli::Decompressor::new(input, buffer_size)`
/// and `read_to_end`; `None` where that returns an error. The contract claims
/// that the outcome is a function of the input and buffer size (named
/// `brotli_decompressed`), and that brotli is lossless: a stream that the
/// compressor produced from `x` decompresses to `x`.
#[verifier::external_body]
fn brotli_read_to_end(input: &[u8], buffer_size: usize) -> (r: Option<Vec<u8>>)
    ensures
        r matches Some(out) ==> brotli_decompressed(input@, buffer_size) == Some(out@),
        r is None ==> brotli_decompressed(input@, buffer_size) is None,
        forall|x: Seq<u8>, b: usize, q: u32, w: u32|
            #[trigger] brotli_compressed(x, b, q, w) == Some(input@) ==> r is Some && r.unwrap()@
                == x,
{
    let mut out = Vec::new();
    let mut decompressor = brotli::Decompressor::new(input, buffer_size);
    match std::io::Read::read_to_end(&mut decompressor, &mut out) {
        Ok(_) => Some(out),
        Err(_) => None,
    }
}

/// The encoder's buffer size for archive calldata.
pub const BROTLI_BUFFER_SIZE: usize = 4096;

/// The encoder's quality for archive calldata (the highest).
pub const BROTLI_QUALITY: u32 = 11;

/// The encoder's window (log2 of its size) for archive calldata.
pub const BROTLI_LGWIN: u32 = 22;

/// The archive calldata for a blob's JSON bytes: the brotli stream at the
/// archive's settings, when the encoder succeeds.
pub open spec fn archive_calldata(json: Seq<u8>) -> Option<Seq<u8>> {
    brotli_compressed(json, BROTLI_BUFFER_SIZE, BROTLI_QUALITY, BROTLI_LGWIN)
}

/// Compresses a blob's JSON bytes into archive calldata; the encoder must
/// succeed on them.
pub fn brotli_compress(input: &[u8]) -> (out: Vec<u8>)
    requires
        archive_calldata(input@) is Some,
    ensures
        Some(out@) == archive_calldata(input@),
{
    let out = brotli_write_all(input, BROTLI_BUFFER_SIZE, BROTLI_QUALITY, BROTLI_LGWIN);
    out.unwrap()
}

/// The archive calldata for a blob's JSON bytes, or `None` when the encoder
/// fails on them.
pub fn compress_blob_json(json: &[u8]) -> (out: Option<Vec<u8>>)
    ensures
        out matches Some(v) ==> archive_calldata(json@) == Some(v@),
        out is None ==> archive_calldata(json@) is None,
{
    let r = brotli_write_all(json, BROTLI_BUFFER_SIZE, BROTLI_QUALITY, BROTLI_LGWIN);
    match r {
        Some(_) => Some(brotli_compress(json)),
        None => None,
    }
}

/// Decompresses archive calldata; the input must be a valid brotli stream.
pub fn brotli_decompress(input: Vec<u8>) -> (out: Vec<u8>)
    requires
        brotli_decompressed(input@, BROTLI_BUFFER_SIZE) is Some,
    ensures
        Some(out@) == brotli_decompressed(input@, BROTLI_BUFFER_SIZE),
        forall|x: Seq<u8>| archive_calldata(x) == Some(input@) ==> out@ == x,
{
    let out = brotli_read_to_end(input.as_slice(), BROTLI_BUFFER_SIZE);
    out.unwrap()
}

/// Decompresses archive calldata, or `None` when it is not a valid brotli
/// stream.
pub fn try_brotli_decompress(input: Vec<u8>) -> (out: Option<Vec<u8>>)
    ensures
        out matches Some(v) ==> brotli_decompressed(input@, BROTLI_BUFFER_SIZE) == Some(v@),
        out is None ==> brotli_decompressed(input@, BROTLI_BUFFER_SIZE) is None,
        forall|x: Seq<u8>| archive_calldata(x) == Some(input@) ==> (out is Some && out.unwrap()@ == x),
{
    match brotli_read_to_end(input.as_slice(), BROTLI_BUFFER_SIZE) {
        Some(_) => Some(brotli_decompress(input)),
        None => None,
    }
}

/// `s` without its leading occurrences of `c`.
pub open spec fn trim_start_char(s: Seq<char>, c: char) -> Seq<char>
    decreases s.len(),
{
    if s.len() > 0 && s[0] == c {
        trim_start_char(s.drop_first(), c)
    } else {
        s
    }
}

/// `s` without its trailing occurrences of `c`.
pub open spec fn trim_end_char(s: Seq<char>, c: char) -> Seq<char>
    decreases s.len(),
{
    if s.len() > 0 && s.last() == c {
        trim_end_char(s.drop_last(), c)
    } else {
        s
    }
}

/// `s` without the occurrences of `c` at either end.
pub open spec fn trim_char(s: Seq<char>, c: char) -> Seq<char> {
    trim_end_char(trim_start_char(s, c), c)
}

proof fn lemma_trim_start_skip(s: Seq<char>, c: char, i: int)
    requires
        0 <= i <= s.len(),
        forall|k: int| 0 <= k < i ==> s[k] == c,
    ensures
        trim_start_char(s, c) == trim_start_char(s.subrange(i, s.len() as int), c),
    decreases i,
{
    if i > 0 {
        assert(s.drop_first() =~= s.subrange(1, s.len() as int));
        lemma_trim_start_skip(s.drop_first(), c, i - 1);
        assert(s.drop_first().subrange(i - 1, s.drop_first().len() as int) =~= s.subrange(
            i,
            s.len() as int,
        ));
    } else {
        assert(s.subrange(0, s.len() as int) =~= s);
    }
}

proof fn lemma_trim_end_drop(s: Seq<char>, c: char, j: int)
    requires
        0 <= j <= s.len(),
        forall|k: int| j <= k < s.len() ==> s[k] == c,
    ensures
        trim_end_char(s, c) == trim_end_char(s.subrange(0, j), c),
    decreases s.len() - j,
{
    if j < s.len() {
        assert(s.drop_last() =~= s.subrange(0, s.len() - 1));
        lemma_trim_end_drop(s.drop_last(), c, j);
        assert(s.drop_last().subrange(0, j) =~= s.subrange(0, j));
    } else {
        assert(s.subrange(0, j) =~= s);
    }
}

/// A transaction id as the archive table stores it: without the `"`
/// characters at either end that its JSON rendering carries.
pub fn trim_quotes(txid: &str) -> (r: &str)
    ensures
        r@ == trim_char(txid@, '"'),
{
    let len = txid.unicode_len();
    let mut i: usize = 0;
    while i < len && txid.get_char(i) == '"'
        invariant
            len == txid@.len(),
            i <= len,
            forall|k: int| 0 <= k < i ==> txid@[k] == '"',
        decreases len - i,
    {
        i = i + 1;
    }
    let mut j: usize = len;
    while j > i && txid.get_char(j - 1) == '"'
        invariant
            len == txid@.len(),
            i <= j <= len,
            forall|k: int| j <= k < len ==> txid@[k] == '"',
        decreases j - i,
    {
        j = j - 1;
    }
    proof {
        let s = txid@;
        lemma_trim_start_skip(s, '"', i as int);
        let rest = s.subrange(i as int, len as int);
        assert(trim_start_char(rest, '"') == rest);
        lemma_trim_end_drop(rest, '"', j - i);
        let mid = rest.subrange(0, j - i);
        assert(mid =~= s.subrange(i as int, j as int));
        assert(trim_end_char(mid, '"') == mid);
    }
    txid.substring_char(i, j)
}


proof fn lemma_trim_start_shape(s: Seq<char>, c: char) -> (i: int)
    ensures
        0 <= i <= s.len(),
        trim_start_char(s, c) == s.subrange(i, s.len() as int),
        forall|k: int| 0 <= k < i ==> s[k] == c,
        i < s.len() ==> s[i] != c,
    decreases s.len(),
{
    if s.len() > 0 && s[0] == c {
        let i0 = lemma_trim_start_shape(s.drop_first(), c);
        assert(s.drop_first().subrange(i0, s.drop_first().len() as int) =~= s.subrange(
            i0 + 1,
            s.len() as int,
        ));
        assert forall|k: int| 0 <= k < i0 + 1 implies s[k] == c by {
            if k > 0 {
                assert(s[k] == s.drop_first()[k - 1]);
            }
        }
        i0 + 1
    } else {
        assert(s.subrange(0, s.len() as int) =~= s);
        0
    }
}

proof fn lemma_trim_end_shape(s: Seq<char>, c: char) -> (j: int)
    ensures
        0 <= j <= s.len(),
        trim_end_char(s, c) == s.subrange(0, j),
        forall|k: int| j <= k < s.len() ==> s[k] == c,
        j > 0 ==> s[j - 1] != c,
    decreases s.len(),
{
    if s.len() > 0 && s.last() == c {
        let j0 = lemma_trim_end_shape(s.drop_last(), c);
        assert(s.drop_last().subrange(0, j0) =~= s.subrange(0, j0));
        assert forall|k: int| j0 <= k < s.len() implies s[k] == c by {
            if k < s.len() - 1 {
                assert(s[k] == s.drop_last()[k]);
            }
        }
        j0
    } else {
        assert(s.subrange(0, s.len() as int) =~= s);
        s.len() as int
    }
}

/// Trimming removes exactly the occurrences of `c` at either end and keeps
/// everything between them: the result is a contiguous part `s[i..j]` of
/// `s`, everything before `i` and from `j` on is `c`, and a non-empty result
/// neither starts nor ends with `c`. Nothing else of `s` is lost, whatever
/// its length.
pub proof fn lemma_trim_char_removes_only_ends(s: Seq<char>, c: char)
    ensures
        exists|i: int, j: int|
            {
                &&& 0 <= i <= j <= s.len()
                &&& trim_char(s, c) == s.subrange(i, j)
                &&& forall|k: int| 0 <= k < i ==> s[k] == c
                &&& forall|k: int| j <= k < s.len() ==> s[k] == c
                &&& i < j ==> s[i] != c && s[j - 1] != c
            },
{
    let i = lemma_trim_start_shape(s, c);
    let rest = s.subrange(i, s.len() as int);
    let j0 = lemma_trim_end_shape(rest, c);
    let j = i + j0;
    assert(rest.subrange(0, j0) =~= s.subrange(i, j));
    assert forall|k: int| j <= k < s.len() implies s[k] == c by {
        assert(s[k] == rest[k - i]);
    }
    if i < j {
        assert(s[i] == rest[0]);
        assert(s[j - 1] == rest[j0 - 1]);
    }
    assert({
        &&& 0 <= i <= j <= s.len()
        &&& trim_char(s, c) == s.subrange(i, j)
        &&& forall|k: int| 0 <= k < i ==> s[k] == c
        &&& forall|k: int| j <= k < s.len() ==> s[k] == c
        &&& i < j ==> s[i] != c && s[j - 1] != c
    });
}

/// A text quoted with `c` and holding no `c` inside gets back exactly the
/// text when trimmed, whatever its length: trimming `"` from the JSON
/// rendering `"<txid>"` gives `<txid>`.
pub proof fn lemma_trim_char_unquotes(s: Seq<char>, c: char)
    requires
        !s.contains(c),
    ensures
        trim_char(seq![c] + s + seq![c], c) == s,
{
    let t = seq![c] + s + seq![c];
    assert(t.drop_first() =~= s + seq![c]);
    let u = s + seq![c];
    if s.len() > 0 {
        assert(u[0] == s[0]);
        assert(s[0] != c);
        assert(trim_start_char(u, c) == u);
    } else {
        assert(u.drop_first() =~= Seq::<char>::empty());
        assert(trim_start_char(u.drop_first(), c) == Seq::<char>::empty());
        assert(trim_start_char(u, c) == Seq::<char>::empty());
        assert(trim_end_char(Seq::<char>::empty(), c) == Seq::<char>::empty());
    }
    if s.len() > 0 {
        assert(trim_start_char(t, c) == u);
        assert(u.drop_last() =~= s);
        assert(s.last() != c) by {
            assert(s[s.len() - 1] == s.last());
        }
        assert(trim_end_char(s, c) == s);
        assert(trim_end_char(u, c) == s);
    }
}

} // verus!
