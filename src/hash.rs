//! Content hashes in the textual forms that Nix accepts: `<algo>:<digest>` in
//! base16, nix32 or base64, `<algo>-<base64>` (SRI), or a bare digest whose
//! algorithm is known from context.
use vstd::prelude::*;
use vstd::utf8::encode_utf8;

verus! {

/// The largest digest, in bytes (SHA-512).
pub const MAX_HASH_SIZE: usize = 64;

/// The symbols of the nix32 encoding, in order of value.
pub const NIX32_SYMBOLS: &'static str = "0123456789abcdfghijklmnpqrsvwxyz";

/// The error of data-encoding's decoders, carried in [`ParseError::InvalidEncoding`].
#[verifier::external_type_specification]
#[verifier::external_body]
pub struct ExDecodeError(data_encoding::DecodeError);

/// A hash algorithm.
#[derive(Clone, Copy, Debug, PartialEq, Eq, Structural)]
pub enum HashAlgo {
    Blake3,
    Md5,
    Sha1,
    Sha256,
    Sha512,
}

/// A textual form of a digest.
#[derive(Clone, Copy, Debug, PartialEq, Eq, Structural)]
pub enum HashFormat {
    Base64,
    Nix32,
    Base16,
    Sri,
}

/// Why a hash could not be parsed.
#[derive(Debug, PartialEq)]
pub enum ParseError {
    /// The hash names no algorithm, and none is known from context.
    MissingPrefix,
    /// The hash names an algorithm that is not known.
    UnknownPrefix { found: String },
    /// The hash names another algorithm than the one expected.
    ExpectedPrefix { want: HashAlgo, found: HashAlgo },
    /// The digest's length matches no encoding of the algorithm's digests.
    WrongLength { algo: HashAlgo, n_chars: usize },
    /// The digest decodes to the wrong number of bytes.
    InvalidHash { algo: HashAlgo, n_bytes: usize },
    /// The digest is not valid in its encoding.
    InvalidEncoding(data_encoding::DecodeError),
}

/// A digest with its algorithm, and the form it was read from, if any.
#[derive(Clone, Debug, PartialEq, Eq)]
pub struct Hash {
    algo: HashAlgo,
    bytes: [u8; MAX_HASH_SIZE],
    format: Option<HashFormat>,
}

/// The size of a digest, in bytes.
pub open spec fn algo_size(a: HashAlgo) -> nat {
    match a {
        HashAlgo::Blake3 => 32,
        HashAlgo::Md5 => 16,
        HashAlgo::Sha1 => 20,
        HashAlgo::Sha256 => 32,
        HashAlgo::Sha512 => 64,
    }
}

/// The name of an algorithm, in lower case.
pub open spec fn algo_name(a: HashAlgo) -> Seq<char> {
    match a {
        HashAlgo::Blake3 => seq!['b', 'l', 'a', 'k', 'e', '3'],
        HashAlgo::Md5 => seq!['m', 'd', '5'],
        HashAlgo::Sha1 => seq!['s', 'h', 'a', '1'],
        HashAlgo::Sha256 => seq!['s', 'h', 'a', '2', '5', '6'],
        HashAlgo::Sha512 => seq!['s', 'h', 'a', '5', '1', '2'],
    }
}

/// The algorithm of a name, if it names one.
pub open spec fn algo_named(n: Seq<char>) -> Option<HashAlgo> {
    if n == algo_name(HashAlgo::Blake3) {
        Some(HashAlgo::Blake3)
    } else if n == algo_name(HashAlgo::Md5) {
        Some(HashAlgo::Md5)
    } else if n == algo_name(HashAlgo::Sha1) {
        Some(HashAlgo::Sha1)
    } else if n == algo_name(HashAlgo::Sha256) {
        Some(HashAlgo::Sha256)
    } else if n == algo_name(HashAlgo::Sha512) {
        Some(HashAlgo::Sha512)
    } else {
        None
    }
}

impl HashAlgo {
    /// The size of this algorithm's digests, in bytes.
    pub fn size(&self) -> (r: usize)
        ensures
            r == algo_size(*self),
            r <= MAX_HASH_SIZE,
    {
        match self {
            HashAlgo::Blake3 => 32,
            HashAlgo::Md5 => 16,
            HashAlgo::Sha1 => 20,
            HashAlgo::Sha256 => 32,
            HashAlgo::Sha512 => 64,
        }
    }

    /// The name of this algorithm, in lower case.
    pub fn name(&self) -> (r: &'static str)
        ensures
            r@ == algo_name(*self),
    {
        proof {
            reveal_strlit("blake3");
            reveal_strlit("md5");
            reveal_strlit("sha1");
            reveal_strlit("sha256");
            reveal_strlit("sha512");
        }
        match self {
            HashAlgo::Blake3 => "blake3",
            HashAlgo::Md5 => "md5",
            HashAlgo::Sha1 => "sha1",
            HashAlgo::Sha256 => "sha256",
            HashAlgo::Sha512 => "sha512",
        }
    }

    /// The algorithm that `name` names exactly, if any.
    pub fn from_name(name: &str) -> (r: Option<HashAlgo>)
        ensures
            r == algo_named(name@),
    {
        if str_eq(name, HashAlgo::Blake3.name()) {
            Some(HashAlgo::Blake3)
        } else if str_eq(name, HashAlgo::Md5.name()) {
            Some(HashAlgo::Md5)
        } else if str_eq(name, HashAlgo::Sha1.name()) {
            Some(HashAlgo::Sha1)
        } else if str_eq(name, HashAlgo::Sha256.name()) {
            Some(HashAlgo::Sha256)
        } else if str_eq(name, HashAlgo::Sha512.name()) {
            Some(HashAlgo::Sha512)
        } else {
            None
        }
    }
}

/// Whether two strings hold the same characters.
fn str_eq(a: &str, b: &str) -> (r: bool)
    ensures
        r == (a@ == b@),
{
    let n = a.unicode_len();
    if n != b.unicode_len() {
        return false;
    }
    let mut i: usize = 0;
    while i < n
        invariant
            n == a@.len(),
            n == b@.len(),
            0 <= i <= n,
            a@.take(i as int) == b@.take(i as int),
        decreases n - i,
    {
        if a.get_char(i) != b.get_char(i) {
            return false;
        }
        assert(a@.take(i as int + 1) =~= a@.take(i as int).push(a@[i as int]));
        assert(b@.take(i as int + 1) =~= b@.take(i as int).push(b@[i as int]));
        i = i + 1;
    }
    assert(a@ =~= a@.take(n as int));
    assert(b@ =~= b@.take(n as int));
    true
}

/// The position of the first `c` in `s`, if any.
pub open spec fn first_index(s: Seq<char>, c: char) -> Option<int>
    decreases s.len(),
{
    if s.len() == 0 {
        None
    } else {
        match first_index(s.drop_last(), c) {
            Some(i) => Some(i),
            None => if s.last() == c {
                Some(s.len() - 1)
            } else {
                None
            },
        }
    }
}

/// Finds the first `c` in `s`.
fn find_char(s: &str, c: char) -> (r: Option<usize>)
    ensures
        match first_index(s@, c) {
            Some(i) => r == Some(i as usize),
            None => r is None,
        },
        r matches Some(i) ==> i < s@.len(),
{
    let n = s.unicode_len();
    let mut i: usize = 0;
    while i < n
        invariant
            n == s@.len(),
            0 <= i <= n,
            first_index(s@.take(i as int), c) is None,
        decreases n - i,
    {
        assert(s@.take(i as int + 1).drop_last() =~= s@.take(i as int));
        if s.get_char(i) == c {
            proof {
                lemma_first_index_prefix(s@, c, i as int + 1);
            }
            return Some(i);
        }
        i = i + 1;
    }
    assert(s@.take(n as int) =~= s@);
    None
}

/// A position found lies in the sequence and holds the character.
proof fn lemma_first_index_bounds(s: Seq<char>, c: char)
    ensures
        first_index(s, c) matches Some(i) ==> 0 <= i < s.len() && s[i] == c,
    decreases s.len(),
{
    if s.len() > 0 {
        lemma_first_index_bounds(s.drop_last(), c);
    }
}

/// A position found in a prefix is the position in the whole.
proof fn lemma_first_index_prefix(s: Seq<char>, c: char, k: int)
    requires
        0 <= k <= s.len(),
        first_index(s.take(k), c) is Some,
    ensures
        first_index(s, c) == first_index(s.take(k), c),
    decreases s.len() - k,
{
    if k < s.len() {
        assert(s.take(k + 1).drop_last() =~= s.take(k));
        lemma_first_index_prefix(s, c, k + 1);
    } else {
        assert(s.take(k) =~= s);
    }
}

/// The parts of a hash: the algorithm name, if one is given, whether it is given
/// in SRI form (`<algo>-<digest>`, as opposed to `<algo>:<digest>`), and the
/// digest text. A `:` is looked for first.
pub open spec fn split_prefix(s: Seq<char>) -> (Option<Seq<char>>, bool, Seq<char>) {
    match first_index(s, ':') {
        Some(i) => (Some(s.take(i)), false, s.skip(i + 1)),
        None => match first_index(s, '-') {
            Some(i) => (Some(s.take(i)), true, s.skip(i + 1)),
            None => (None, false, s),
        },
    }
}

/// `r` is the reading of the prefix of `input`.
pub open spec fn prefix_parsed(input: Seq<char>, r: Result<(Option<HashAlgo>, bool, &str), ParseError>) -> bool {
    let (p, sri, rest) = split_prefix(input);
    match p {
        None => r matches Ok((a, b, h)) && a is None && b == sri && h@ == rest,
        Some(name) => match algo_named(name) {
            Some(algo) => r matches Ok((a, b, h)) && a == Some(algo) && b == sri && h@ == rest,
            None => r matches Err(ParseError::UnknownPrefix { found }) && found@ == name,
        },
    }
}

/// The algorithm to decode with, from the one expected and the one named.
pub open spec fn chosen_algo(want: Option<HashAlgo>, found: Option<HashAlgo>) -> Result<
    HashAlgo,
    ParseError,
> {
    match (want, found) {
        (None, None) => Err(ParseError::MissingPrefix),
        (Some(a), None) => Ok(a),
        (None, Some(a)) => Ok(a),
        (Some(w), Some(f)) => if w == f {
            Ok(w)
        } else {
            Err(ParseError::ExpectedPrefix { want: w, found: f })
        },
    }
}

/// The base16 decoding of `input`, if valid.
pub uninterp spec fn base16_decoded(input: Seq<u8>) -> Option<Seq<u8>>;

/// The nix32 decoding of `input`, if valid.
pub uninterp spec fn nix32_decoded(input: Seq<u8>) -> Option<Seq<u8>>;

/// The padded base64 decoding of `input`, if valid.
pub uninterp spec fn base64_decoded(input: Seq<u8>) -> Option<Seq<u8>>;

/// The lower-case base16 encoding of `bytes`.
pub uninterp spec fn base16_encoded(bytes: Seq<u8>) -> Seq<char>;

/// The nix32 encoding of `bytes`.
pub uninterp spec fn nix32_encoded(bytes: Seq<u8>) -> Seq<char>;

/// The padded base64 encoding of `bytes`.
pub uninterp spec fn base64_encoded(bytes: Seq<u8>) -> Seq<char>;

/// Relies on `data_encoding::HEXLOWER.decode`: the bytes that `input` encodes, or
/// an error where it is not lower-case base16.
#[verifier::external_body]
fn base16_decode(input: &[u8]) -> (r: Result<Vec<u8>, data_encoding::DecodeError>)
    ensures
        match r {
            Ok(v) => base16_decoded(input@) == Some(v@),
            Err(_) => base16_decoded(input@) is None,
        },
{
    data_encoding::HEXLOWER.decode(input)
}

/// Relies on `data_encoding::Specification::encoding`, with the nix32 symbols and
/// otherwise the default specification (which it accepts), and on
/// `Encoding::decode`: the bytes that `input` encodes, or an error.
#[verifier::external_body]
fn nix32_decode(input: &[u8]) -> (r: Result<Vec<u8>, data_encoding::DecodeError>)
    ensures
        match r {
            Ok(v) => nix32_decoded(input@) == Some(v@),
            Err(_) => nix32_decoded(input@) is None,
        },
{
    let mut spec = data_encoding::Specification::new();
    spec.symbols.push_str(NIX32_SYMBOLS);
    spec.encoding().expect("32 distinct ASCII symbols").decode(input)
}

/// Relies on `data_encoding::BASE64.decode`: the bytes that `input` encodes, or
/// an error where it is not padded base64.
#[verifier::external_body]
fn base64_decode(input: &[u8]) -> (r: Result<Vec<u8>, data_encoding::DecodeError>)
    ensures
        match r {
            Ok(v) => base64_decoded(input@) == Some(v@),
            Err(_) => base64_decoded(input@) is None,
        },
{
    data_encoding::BASE64.decode(input)
}

/// Relies on `data_encoding::HEXLOWER.encode`.
#[verifier::external_body]
fn base16_encode(bytes: &[u8]) -> (r: String)
    ensures
        r@ == base16_encoded(bytes@),
{
    data_encoding::HEXLOWER.encode(bytes)
}

/// Relies on `data_encoding::Specification::encoding`, as for decoding, and on
/// `Encoding::encode`.
#[verifier::external_body]
fn nix32_encode(bytes: &[u8]) -> (r: String)
    ensures
        r@ == nix32_encoded(bytes@),
{
    let mut spec = data_encoding::Specification::new();
    spec.symbols.push_str(NIX32_SYMBOLS);
    spec.encoding().expect("32 distinct ASCII symbols").encode(bytes)
}

/// Relies on `data_encoding::BASE64.encode`.
#[verifier::external_body]
fn base64_encode(bytes: &[u8]) -> (r: String)
    ensures
        r@ == base64_encoded(bytes@),
{
    data_encoding::BASE64.encode(bytes)
}

/// The length of the encoding of `size` bytes: two digits a byte in base16, five
/// bits a digit in nix32, four characters for each (started) three bytes in
/// padded base64.
pub open spec fn encoded_len(format: HashFormat, size: nat) -> nat {
    match format {
        HashFormat::Base16 => 2 * size,
        HashFormat::Nix32 => (8 * size + 4) / 5,
        HashFormat::Base64 | HashFormat::Sri => 4 * ((size + 2) / 3),
    }
}

fn encoded_len_of(format: HashFormat, size: usize) -> (r: usize)
    requires
        size <= MAX_HASH_SIZE,
    ensures
        r == encoded_len(format, size as nat),
{
    match format {
        HashFormat::Base16 => 2 * size,
        HashFormat::Nix32 => (8 * size + 4) / 5,
        HashFormat::Base64 | HashFormat::Sri => 4 * ((size + 2) / 3),
    }
}

/// `r` is the hash read from `input`, with algorithm `want` where given.
pub open spec fn parsed(input: Seq<char>, want: Option<HashAlgo>, r: Result<Hash, ParseError>) -> bool {
    let (p, sri, rest) = split_prefix(input);
    let named = match p {
        None => Ok(None),
        Some(name) => match algo_named(name) {
            Some(a) => Ok(Some(a)),
            None => Err(name),
        },
    };
    match named {
        Err(name) => r matches Err(ParseError::UnknownPrefix { found }) && found@ == name,
        Ok(found) => match chosen_algo(want, found) {
            Err(e) => r == Err::<Hash, ParseError>(e),
            Ok(algo) => decoded(encode_utf8(rest), algo, sri, r),
        },
    }
}

/// `r` is the hash of algorithm `algo` decoded from the digest text `hash`
/// (bytes), in SRI form where `sri` holds.
pub open spec fn decoded(hash: Seq<u8>, algo: HashAlgo, sri: bool, r: Result<Hash, ParseError>) -> bool {
    let n = hash.len();
    let size = algo_size(algo);
    if !sri && n == encoded_len(HashFormat::Base16, size) {
        from_decoding(base16_decoded(hash), algo, HashFormat::Base16, r)
    } else if !sri && n == encoded_len(HashFormat::Nix32, size) {
        from_decoding(nix32_decoded(hash), algo, HashFormat::Nix32, r)
    } else if sri || n == encoded_len(HashFormat::Base64, size) {
        from_decoding(
            base64_decoded(hash),
            algo,
            if sri {
                HashFormat::Sri
            } else {
                HashFormat::Base64
            },
            r,
        )
    } else {
        r == Err::<Hash, ParseError>(ParseError::WrongLength { algo, n_chars: n as usize })
    }
}

/// `r` is the hash from the outcome `d` of decoding a digest of `algo` read in
/// `format`: the digest when it has the algorithm's size.
pub open spec fn from_decoding(d: Option<Seq<u8>>, algo: HashAlgo, format: HashFormat, r: Result<Hash, ParseError>) -> bool {
    match d {
        None => r matches Err(ParseError::InvalidEncoding(_)),
        Some(v) => if v.len() == algo_size(algo) {
            r matches Ok(h) && h.wf() && h.spec_algo() == algo && h.digest() == v && h.spec_format()
                == Some(format)
        } else {
            r == Err::<Hash, ParseError>(ParseError::InvalidHash { algo, n_bytes: v.len() as usize })
        },
    }
}

/// The text of a digest of `algo` in `format`, named where `show_algo` holds
/// or the form is SRI.
pub open spec fn encoded(algo: HashAlgo, digest: Seq<u8>, format: HashFormat, show_algo: bool) -> Seq<char> {
    let prefix = match format {
        HashFormat::Sri => algo_name(algo) + seq!['-'],
        _ => if show_algo {
            algo_name(algo) + seq![':']
        } else {
            Seq::empty()
        },
    };
    let text = match format {
        HashFormat::Base64 | HashFormat::Sri => base64_encoded(digest),
        HashFormat::Nix32 => nix32_encoded(digest),
        HashFormat::Base16 => base16_encoded(digest),
    };
    prefix + text
}

impl Hash {
    /// The digest fills the algorithm's size; the bytes after it are zero.
    pub closed spec fn wf(&self) -> bool {
        forall|i: int| algo_size(self.algo) <= i < MAX_HASH_SIZE ==> self.bytes@[i] == 0
    }

    pub closed spec fn spec_algo(&self) -> HashAlgo {
        self.algo
    }

    pub closed spec fn spec_format(&self) -> Option<HashFormat> {
        self.format
    }

    /// The digest.
    pub closed spec fn digest(&self) -> Seq<u8> {
        self.bytes@.take(algo_size(self.algo) as int)
    }

    pub(crate) fn _new(algo: HashAlgo, bytes: [u8; MAX_HASH_SIZE], format: HashFormat) -> (r: Self)
        ensures
            r.spec_algo() == algo,
            r.digest() == bytes@.take(algo_size(algo) as int),
            r.spec_format() == Some(format),
            r.wf() == (forall|i: int| algo_size(algo) <= i < MAX_HASH_SIZE ==> bytes@[i] == 0),
    {
        Hash { algo, bytes, format: Some(format) }
    }

    /// The hash's algorithm.
    pub fn algorithm(&self) -> (r: HashAlgo)
        ensures
            r == self.spec_algo(),
    {
        self.algo
    }

    /// The digest, of the algorithm's size.
    pub fn bytes(&self) -> (r: &[u8])
        ensures
            r@ == self.digest(),
            r@.len() == algo_size(self.spec_algo()),
    {
        let size = self.algo.size();
        proof {
            vstd::array::array_len_matches_n(&self.bytes);
        }
        vstd::slice::slice_subrange(self.bytes.as_slice(), 0, size)
    }

    /// Splits `input` into the algorithm it names, if any, whether it is in SRI
    /// form, and the digest text.
    pub(crate) fn parse_prefix(input: &str) -> (r: Result<(Option<HashAlgo>, bool, &str), ParseError>)
        ensures
            prefix_parsed(input@, r),
    {
        let n = input.unicode_len();
        let (prefix, is_sri, hash) = match find_char(input, ':') {
            Some(i) => (Some(input.substring_char(0, i)), false, input.substring_char(i + 1, n)),
            None => match find_char(input, '-') {
                Some(i) => (Some(input.substring_char(0, i)), true, input.substring_char(i + 1, n)),
                None => (None, false, input),
            },
        };
        proof {
            let n = input@.len();
            lemma_first_index_bounds(input@, ':');
            lemma_first_index_bounds(input@, '-');
            match first_index(input@, ':') {
                Some(i) => {
                    assert(input@.subrange(0, i) =~= input@.take(i));
                    assert(input@.subrange(i + 1, n as int) =~= input@.skip(i + 1));
                },
                None => match first_index(input@, '-') {
                    Some(i) => {
                        assert(input@.subrange(0, i) =~= input@.take(i));
                        assert(input@.subrange(i + 1, n as int) =~= input@.skip(i + 1));
                    },
                    None => {},
                },
            }
        }
        match prefix {
            None => Ok((None, is_sri, hash)),
            Some(p) => match HashAlgo::from_name(p) {
                Some(algo) => Ok((Some(algo), is_sri, hash)),
                None => Err(ParseError::UnknownPrefix { found: p.to_owned() }),
            },
        }
    }

    /// Reads a hash, whose algorithm is `algo` where given; a named algorithm
    /// must then agree with it.
    pub(crate) fn parse_(input: &str, algo: Option<HashAlgo>) -> (r: Result<Self, ParseError>)
        ensures
            parsed(input@, algo, r),
    {
        let (algo_prefix, is_sri, hash) = match Self::parse_prefix(input) {
            Ok(parts) => parts,
            Err(e) => {
                return Err(e);
            },
        };
        let algo = match (algo, algo_prefix) {
            (None, None) => {
                return Err(ParseError::MissingPrefix);
            },
            (Some(a), None) => a,
            (None, Some(a)) => a,
            (Some(want), Some(found)) => {
                if want != found {
                    return Err(ParseError::ExpectedPrefix { want, found });
                }
                want
            },
        };
        Self::decode(hash, algo, is_sri)
    }

    /// Reads a hash that names its algorithm.
    pub fn parse(input: &str) -> (r: Result<Self, ParseError>)
        ensures
            parsed(input@, None, r),
    {
        Self::parse_(input, None)
    }

    /// Reads a hash of the algorithm `algo`, which it may also name.
    pub fn parse_as(input: &str, algo: HashAlgo) -> (r: Result<Self, ParseError>)
        ensures
            parsed(input@, Some(algo), r),
    {
        Self::parse_(input, Some(algo))
    }

    /// Decodes the digest text `hash` of the algorithm `algo`. Outside SRI form
    /// the encoding is told by the text's length in bytes: base16, then nix32,
    /// then base64; in SRI form it is base64.
    pub(crate) fn decode(hash: &str, algo: HashAlgo, is_sri: bool) -> (r: Result<Self, ParseError>)
        ensures
            decoded(encode_utf8(hash@), algo, is_sri, r),
    {
        let input = hash.as_bytes();
        let n = input.len();
        let size = algo.size();
        if !is_sri && n == encoded_len_of(HashFormat::Base16, size) {
            Self::from_decoded(base16_decode(input), algo, HashFormat::Base16)
        } else if !is_sri && n == encoded_len_of(HashFormat::Nix32, size) {
            Self::from_decoded(nix32_decode(input), algo, HashFormat::Nix32)
        } else if is_sri || n == encoded_len_of(HashFormat::Base64, size) {
            let format = if is_sri {
                HashFormat::Sri
            } else {
                HashFormat::Base64
            };
            Self::from_decoded(base64_decode(input), algo, format)
        } else {
            Err(ParseError::WrongLength { algo, n_chars: n })
        }
    }

    /// A hash from the outcome of decoding a digest of `algo` read in `format`.
    pub fn from_decoded(
        d: Result<Vec<u8>, data_encoding::DecodeError>,
        algo: HashAlgo,
        format: HashFormat,
    ) -> (r: Result<Self, ParseError>)
        ensures
            from_decoding(
                match d {
                    Ok(v) => Some(v@),
                    Err(_) => None,
                },
                algo,
                format,
                r,
            ),
    {
        match d {
            Err(e) => Err(ParseError::InvalidEncoding(e)),
            Ok(v) => {
                let size = algo.size();
                if v.len() != size {
                    return Err(ParseError::InvalidHash { algo, n_bytes: v.len() });
                }
                let mut bytes: [u8; MAX_HASH_SIZE] = [0u8; MAX_HASH_SIZE];
                let mut i: usize = 0;
                while i < size
                    invariant
                        size == algo_size(algo),
                        size <= MAX_HASH_SIZE,
                        v@.len() == size,
                        0 <= i <= size,
                        bytes@.len() == MAX_HASH_SIZE,
                        forall|k: int| 0 <= k < i ==> bytes@[k] == v@[k],
                        forall|k: int| i <= k < MAX_HASH_SIZE ==> bytes@[k] == 0,
                    decreases size - i,
                {
                    bytes[i] = v[i];
                    i = i + 1;
                }
                let h = Self::_new(algo, bytes, format);
                assert(h.digest() =~= v@);
                assert(h.wf());
                Ok(h)
            },
        }
    }

    /// The hash in `format`, preceded by its algorithm's name and a `:` where
    /// `show_algo` holds; the SRI form always names the algorithm, with a `-`.
    pub fn to_string(&self, format: &HashFormat, show_algo: bool) -> (r: String)
        ensures
            r@ == encoded(self.spec_algo(), self.digest(), *format, show_algo),
    {
        let mut buf = String::new();
        match format {
            HashFormat::Sri => {
                buf.append(self.algo.name());
                buf.append("-");
            },
            _ => {
                if show_algo {
                    buf.append(self.algo.name());
                    buf.append(":");
                }
            },
        }
        let digest = self.bytes();
        let text = match format {
            HashFormat::Base64 | HashFormat::Sri => base64_encode(digest),
            HashFormat::Nix32 => nix32_encode(digest),
            HashFormat::Base16 => base16_encode(digest),
        };
        buf.append(text.as_str());
        proof {
            reveal_strlit("-");
            reveal_strlit(":");
        }
        assert(buf@ =~= encoded(self.spec_algo(), self.digest(), *format, show_algo));
        buf
    }

    /// The form the hash was read from, if it was read.
    pub fn format(&self) -> (r: Option<HashFormat>)
        ensures
            r == self.spec_format(),
    {
        self.format
    }
}

} // verus!
