//! What the engine reads out of a list of headers.

use vstd::prelude::*;
use crate::consts::{
    COMPRESS_METHOD_BROTLI, COMPRESS_METHOD_DEFLATE, COMPRESS_METHOD_GZIP, COMPRESS_METHOD_NONE,
};

verus! {

/// A list of headers: each a name and a value.
pub type HeaderList = Vec<(Vec<u8>, Vec<u8>)>;

/// A list of headers by its bytes.
pub type HeaderSeq = Seq<(Seq<u8>, Seq<u8>)>;

/// The headers of a list, each by its bytes.
pub open spec fn list_view(headers: Seq<(Vec<u8>, Vec<u8>)>) -> HeaderSeq {
    Seq::new(headers.len(), |i: int| (headers[i].0@, headers[i].1@))
}

/// An upper-case ASCII letter as lower case; any other byte as it is.
pub open spec fn lower(b: u8) -> u8 {
    if 65 <= b <= 90 {
        (b + 32) as u8
    } else {
        b
    }
}

/// Whether two names are equal but for the case of their ASCII letters.
pub open spec fn same_name(a: Seq<u8>, b: Seq<u8>) -> bool {
    a.len() == b.len() && forall|i: int| 0 <= i < a.len() ==> lower(a[i]) == lower(b[i])
}

/// Whether `dst` stands in `src` at position `i`.
pub open spec fn occurs_at(src: Seq<u8>, dst: Seq<u8>, i: int) -> bool {
    0 <= i && i + dst.len() <= src.len() && src.subrange(i, i + dst.len()) == dst
}

/// Whether `dst` stands somewhere in `src`.
pub open spec fn contains(src: Seq<u8>, dst: Seq<u8>) -> bool {
    exists|i: int| occurs_at(src, dst, i)
}

/// The value of the first header named `name`, whatever the case of its
/// letters.
pub open spec fn header_value(headers: HeaderSeq, name: Seq<u8>) -> Option<Seq<u8>>
    decreases headers.len(),
{
    if headers.len() == 0 {
        None
    } else if same_name(headers[0].0, name) {
        Some(headers[0].1)
    } else {
        header_value(headers.skip(1), name)
    }
}

/// Whether the value of the first header named `name` holds `token`.
pub open spec fn header_has(headers: HeaderSeq, name: Seq<u8>, token: Seq<u8>) -> bool {
    match header_value(headers, name) {
        Some(value) => contains(value, token),
        None => false,
    }
}

/// `Transfer-Encoding`
pub open spec fn transfer_encoding() -> Seq<u8> {
    seq![84u8, 114, 97, 110, 115, 102, 101, 114, 45, 69, 110, 99, 111, 100, 105, 110, 103]
}

/// `Content-Encoding`
pub open spec fn content_encoding() -> Seq<u8> {
    seq![67u8, 111, 110, 116, 101, 110, 116, 45, 69, 110, 99, 111, 100, 105, 110, 103]
}

/// `Content-Length`
pub open spec fn content_length() -> Seq<u8> {
    seq![67u8, 111, 110, 116, 101, 110, 116, 45, 76, 101, 110, 103, 116, 104]
}

/// `chunked`
pub open spec fn token_chunked() -> Seq<u8> {
    seq![99u8, 104, 117, 110, 107, 101, 100]
}

/// `gzip`
pub open spec fn token_gzip() -> Seq<u8> {
    seq![103u8, 122, 105, 112]
}

/// `deflate`
pub open spec fn token_deflate() -> Seq<u8> {
    seq![100u8, 101, 102, 108, 97, 116, 101]
}

/// `br`
pub open spec fn token_br() -> Seq<u8> {
    seq![98u8, 114]
}

/// Whether the headers announce a body in chunks.
pub open spec fn chunked_spec(headers: HeaderSeq) -> bool {
    header_has(headers, transfer_encoding(), token_chunked())
}

/// The content coding that the headers name: gzip, deflate or brotli, looked
/// for in this order; none where the header is missing or names another.
pub open spec fn compress_method_spec(headers: HeaderSeq) -> i8 {
    if header_has(headers, content_encoding(), token_gzip()) {
        COMPRESS_METHOD_GZIP
    } else if header_has(headers, content_encoding(), token_deflate()) {
        COMPRESS_METHOD_DEFLATE
    } else if header_has(headers, content_encoding(), token_br()) {
        COMPRESS_METHOD_BROTLI
    } else {
        COMPRESS_METHOD_NONE
    }
}

/// Whether a value is the number zero in decimal: one or more digits `0`.
pub open spec fn is_zero(value: Seq<u8>) -> bool {
    value.len() > 0 && forall|i: int| 0 <= i < value.len() ==> value[i] == 48
}

/// Whether the headers announce a body of no bytes.
pub open spec fn no_content_spec(headers: HeaderSeq) -> bool {
    match header_value(headers, content_length()) {
        Some(value) => is_zero(value),
        None => false,
    }
}

fn to_lower(b: u8) -> (r: u8)
    ensures
        r == lower(b),
{
    if 65 <= b && b <= 90 {
        b + 32
    } else {
        b
    }
}

/// Whether two names are equal but for the case of their ASCII letters.
pub fn eq_ignore_case(a: &[u8], b: &[u8]) -> (r: bool)
    ensures
        r == same_name(a@, b@),
{
    if a.len() != b.len() {
        return false;
    }
    let mut i: usize = 0;
    while i < a.len()
        invariant
            i <= a@.len(),
            a@.len() == b@.len(),
            forall|j: int| 0 <= j < i ==> lower(a@[j]) == lower(b@[j]),
        decreases a@.len() - i,
    {
        if to_lower(a[i]) != to_lower(b[i]) {
            return false;
        }
        i = i + 1;
    }
    true
}

/// Whether `dst` stands in `src` at position `i`.
fn matches_at(src: &[u8], dst: &[u8], i: usize) -> (r: bool)
    requires
        i + dst@.len() <= src@.len(),
    ensures
        r == occurs_at(src@, dst@, i as int),
{
    let mut j: usize = 0;
    let n = src.len();
    while j < dst.len()
        invariant
            j <= dst@.len(),
            n == src@.len(),
            i + dst@.len() <= src@.len(),
            forall|k: int| 0 <= k < j ==> src@[i + k] == dst@[k],
        decreases dst@.len() - j,
    {
        if src[i + j] != dst[j] {
            proof {
                assert(src@.subrange(i as int, i + dst@.len())[j as int] == src@[i + j]);
            }
            return false;
        }
        j = j + 1;
    }
    proof {
        assert(src@.subrange(i as int, i + dst@.len()) =~= dst@);
    }
    true
}

/// Whether `dst` stands somewhere in `src`.
pub fn contains_bytes(src: &[u8], dst: &[u8]) -> (r: bool)
    ensures
        r == contains(src@, dst@),
{
    if dst.len() > src.len() {
        return false;
    }
    let last = src.len() - dst.len();
    let mut i: usize = 0;
    loop
        invariant
            last == src@.len() - dst@.len(),
            i <= last,
            forall|k: int| 0 <= k < i ==> !occurs_at(src@, dst@, k),
        decreases last - i,
    {
        if matches_at(src, dst, i) {
            return true;
        }
        if i == last {
            return false;
        }
        i = i + 1;
    }
}

/// The place of the first header named `name`, whatever the case of its
/// letters.
pub fn find_header(headers: &HeaderList, name: &[u8]) -> (r: Option<usize>)
    ensures
        match r {
            Some(i) => i < headers@.len() && header_value(list_view(headers@), name@) == Some(
                headers@[i as int].1@,
            ),
            None => header_value(list_view(headers@), name@) is None,
        },
{
    let mut i: usize = 0;
    proof {
        assert(list_view(headers@).skip(0) =~= list_view(headers@));
    }
    while i < headers.len()
        invariant
            i <= headers@.len(),
            header_value(list_view(headers@), name@) == header_value(
                list_view(headers@).skip(i as int),
                name@,
            ),
        decreases headers@.len() - i,
    {
        proof {
            assert(list_view(headers@).skip(i as int)[0] == list_view(headers@)[i as int]);
            assert(list_view(headers@).skip(i as int).skip(1) =~= list_view(headers@).skip(i + 1));
        }
        if eq_ignore_case(headers[i].0.as_slice(), name) {
            return Some(i);
        }
        i = i + 1;
    }
    None
}

/// Whether the value of the first header named `name` holds `token`.
pub fn header_contains(headers: &HeaderList, name: &[u8], token: &[u8]) -> (r: bool)
    ensures
        r == header_has(list_view(headers@), name@, token@),
{
    match find_header(headers, name) {
        Some(i) => contains_bytes(headers[i].1.as_slice(), token),
        None => false,
    }
}

/// Whether the headers announce a body in chunks.
pub fn is_chunked(headers: &HeaderList) -> (r: bool)
    ensures
        r == chunked_spec(list_view(headers@)),
{
    let name: [u8; 17] = [
        84,
        114,
        97,
        110,
        115,
        102,
        101,
        114,
        45,
        69,
        110,
        99,
        111,
        100,
        105,
        110,
        103,
    ];
    let token: [u8; 7] = [99, 104, 117, 110, 107, 101, 100];
    proof {
        assert(name@ =~= transfer_encoding());
        assert(token@ =~= token_chunked());
    }
    header_contains(headers, &name, &token)
}

/// The content coding that the headers name.
pub fn get_compress_method(headers: &HeaderList) -> (m: i8)
    ensures
        m == compress_method_spec(list_view(headers@)),
{
    let name: [u8; 16] = [67, 111, 110, 116, 101, 110, 116, 45, 69, 110, 99, 111, 100, 105, 110, 103];
    let gzip: [u8; 4] = [103, 122, 105, 112];
    let deflate: [u8; 7] = [100, 101, 102, 108, 97, 116, 101];
    let br: [u8; 2] = [98, 114];
    proof {
        assert(name@ =~= content_encoding());
        assert(gzip@ =~= token_gzip());
        assert(deflate@ =~= token_deflate());
        assert(br@ =~= token_br());
    }
    if header_contains(headers, &name, &gzip) {
        COMPRESS_METHOD_GZIP
    } else if header_contains(headers, &name, &deflate) {
        COMPRESS_METHOD_DEFLATE
    } else if header_contains(headers, &name, &br) {
        COMPRESS_METHOD_BROTLI
    } else {
        COMPRESS_METHOD_NONE
    }
}

/// Whether the headers announce a body of no bytes.
pub fn is_no_content(headers: &HeaderList) -> (r: bool)
    ensures
        r == no_content_spec(list_view(headers@)),
{
    let name: [u8; 14] = [67, 111, 110, 116, 101, 110, 116, 45, 76, 101, 110, 103, 116, 104];
    proof {
        assert(name@ =~= content_length());
    }
    match find_header(headers, &name) {
        Some(i) => all_zero(headers[i].1.as_slice()),
        None => false,
    }
}

/// Whether a value is the number zero in decimal.
fn all_zero(value: &[u8]) -> (r: bool)
    ensures
        r == is_zero(value@),
{
    if value.len() == 0 {
        return false;
    }
    let mut k: usize = 0;
    while k < value.len()
        invariant
            k <= value@.len(),
            value@.len() > 0,
            forall|j: int| 0 <= j < k ==> value@[j] == 48,
        decreases value@.len() - k,
    {
        if value[k] != 48 {
            return false;
        }
        k = k + 1;
    }
    true
}

/// `Connection`
pub open spec fn connection() -> Seq<u8> {
    seq![67u8, 111, 110, 110, 101, 99, 116, 105, 111, 110]
}

/// `close`
pub open spec fn token_close() -> Seq<u8> {
    seq![99u8, 108, 111, 115, 101]
}

/// A value with its upper-case ASCII letters as lower case.
pub open spec fn lowered(value: Seq<u8>) -> Seq<u8> {
    Seq::new(value.len(), |i: int| lower(value[i]))
}

/// `keep-alive`
pub open spec fn token_keep_alive() -> Seq<u8> {
    seq![107u8, 101, 101, 112, 45, 97, 108, 105, 118, 101]
}

/// `HTTP/1.1`
pub open spec fn http11() -> Seq<u8> {
    seq![72u8, 84, 84, 80, 47, 49, 46, 49]
}

/// Whether the connection is to stay open after the exchange of a request
/// with this version and these headers. The first `Connection` header
/// decides, whatever the case of its letters: not if it names `close`, else
/// so if it names `keep-alive`. Where it names neither, or is missing, the
/// connection stays open for `HTTP/1.1` and for no other version.
#[verifier::opaque]
pub open spec fn keep_alive_spec(version: Seq<u8>, headers: HeaderSeq) -> bool {
    let named = match header_value(headers, connection()) {
        Some(value) => lowered(value),
        None => Seq::empty(),
    };
    if contains(named, token_close()) {
        false
    } else if contains(named, token_keep_alive()) {
        true
    } else {
        version == http11()
    }
}

/// Whether a value is a number in decimal: one or more digits.
pub open spec fn is_number(value: Seq<u8>) -> bool {
    value.len() > 0 && forall|i: int| 0 <= i < value.len() ==> 48 <= #[trigger] value[i] <= 57
}

/// The number that a run of decimal digits stands for.
pub open spec fn decimal_value(digits: Seq<u8>) -> nat
    decreases digits.len(),
{
    if digits.len() == 0 {
        0
    } else {
        decimal_value(digits.drop_last()) * 10 + (digits.last() - 48) as nat
    }
}

/// The length that the headers declare for the body: the number in the first
/// `Content-Length` header; zero where the header is missing, holds no
/// number, or a number beyond `isize::MAX`.
#[verifier::opaque]
pub open spec fn declared_len_spec(headers: HeaderSeq) -> isize {
    match header_value(headers, content_length()) {
        Some(value) => if is_number(value) && decimal_value(value) <= isize::MAX {
            decimal_value(value) as isize
        } else {
            0
        },
        None => 0,
    }
}

/// A run of digits stands for no smaller a number than any of its fronts.
proof fn lemma_decimal_grows(digits: Seq<u8>, k: int)
    requires
        is_number(digits),
        0 <= k <= digits.len(),
    ensures
        decimal_value(digits.take(k)) <= decimal_value(digits),
    decreases digits.len() - k,
{
    if k == digits.len() {
        assert(digits.take(k) =~= digits);
    } else {
        lemma_decimal_grows(digits, k + 1);
        assert(digits.take(k + 1).drop_last() =~= digits.take(k));
        assert(digits.take(k + 1).last() == digits[k]);
    }
}

/// The number that a value holds in decimal, if it is one that `isize`
/// holds.
fn parse_decimal(value: &[u8]) -> (r: Option<isize>)
    ensures
        r == if is_number(value@) && decimal_value(value@) <= isize::MAX {
            Some(decimal_value(value@) as isize)
        } else {
            None
        },
{
    if value.len() == 0 {
        return None;
    }
    let max: usize = isize::MAX as usize;
    let mut n: usize = 0;
    let mut k: usize = 0;
    proof {
        assert(value@.take(0) =~= Seq::<u8>::empty());
    }
    while k < value.len()
        invariant
            k <= value@.len(),
            value@.len() > 0,
            max == isize::MAX,
            n <= max,
            n == decimal_value(value@.take(k as int)),
            forall|j: int| 0 <= j < k ==> 48 <= #[trigger] value@[j] <= 57,
        decreases value@.len() - k,
    {
        let b = value[k];
        if b < 48 || b > 57 {
            return None;
        }
        let d: usize = (b - 48) as usize;
        proof {
            assert(value@.take(k + 1).drop_last() =~= value@.take(k as int));
            assert(value@.take(k + 1).last() == b);
        }
        if n > (max - d) / 10 {
            proof {
                assert(n * 10 + d > max) by (nonlinear_arith)
                    requires
                        n > (max - d) / 10,
                        d <= 9,
                        max >= 9,
                ;
                if is_number(value@) {
                    lemma_decimal_grows(value@, k + 1);
                }
            }
            return None;
        }
        proof {
            assert(n * 10 + d <= max) by (nonlinear_arith)
                requires
                    n <= (max - d) / 10,
                    d <= max,
            ;
        }
        n = n * 10 + d;
        k = k + 1;
    }
    proof {
        assert(value@.take(k as int) =~= value@);
    }
    Some(n as isize)
}

/// The length that the headers declare for the body.
pub fn declared_len(headers: &HeaderList) -> (n: isize)
    ensures
        n == declared_len_spec(list_view(headers@)),
{
    reveal(declared_len_spec);
    let name: [u8; 14] = [67, 111, 110, 116, 101, 110, 116, 45, 76, 101, 110, 103, 116, 104];
    proof {
        assert(name@ =~= content_length());
    }
    match find_header(headers, &name) {
        Some(i) => match parse_decimal(headers[i].1.as_slice()) {
            Some(n) => n,
            None => 0,
        },
        None => 0,
    }
}

/// A copy of a value with its upper-case ASCII letters as lower case.
fn to_lowered(value: &[u8]) -> (r: Vec<u8>)
    ensures
        r@ == lowered(value@),
{
    let mut out: Vec<u8> = Vec::new();
    let mut i: usize = 0;
    while i < value.len()
        invariant
            i <= value@.len(),
            out@.len() == i,
            forall|j: int| 0 <= j < i ==> out@[j] == lower(value@[j]),
        decreases value@.len() - i,
    {
        out.push(to_lower(value[i]));
        i = i + 1;
    }
    proof {
        assert(out@ =~= lowered(value@));
    }
    out
}

/// Whether the connection is to stay open after the exchange of a request
/// with this version and these headers.
pub fn is_keep_alive(version: &[u8], headers: &HeaderList) -> (r: bool)
    ensures
        r == keep_alive_spec(version@, list_view(headers@)),
{
    reveal(keep_alive_spec);
    let name: [u8; 10] = [67, 111, 110, 110, 101, 99, 116, 105, 111, 110];
    let close: [u8; 5] = [99, 108, 111, 115, 101];
    let keep: [u8; 10] = [107, 101, 101, 112, 45, 97, 108, 105, 118, 101];
    let current: [u8; 8] = [72, 84, 84, 80, 47, 49, 46, 49];
    proof {
        assert(name@ =~= connection());
        assert(close@ =~= token_close());
        assert(keep@ =~= token_keep_alive());
        assert(current@ =~= http11());
    }
    let named = match find_header(headers, &name) {
        Some(i) => to_lowered(headers[i].1.as_slice()),
        None => Vec::new(),
    };
    if contains_bytes(named.as_slice(), &close) {
        false
    } else if contains_bytes(named.as_slice(), &keep) {
        true
    } else {
        same_bytes(version, &current)
    }
}

/// Whether two runs of bytes are the same.
fn same_bytes(a: &[u8], b: &[u8]) -> (r: bool)
    ensures
        r == (a@ == b@),
{
    if a.len() != b.len() {
        return false;
    }
    let mut i: usize = 0;
    while i < a.len()
        invariant
            i <= a@.len(),
            a@.len() == b@.len(),
            forall|j: int| 0 <= j < i ==> a@[j] == b@[j],
        decreases a@.len() - i,
    {
        if a[i] != b[i] {
            return false;
        }
        i = i + 1;
    }
    proof {
        assert(a@ =~= b@);
    }
    true
}

/// A request in `HTTP/1.1` that says nothing of the connection asks to keep
/// it open; one that names `close` does not, whatever its version.
pub proof fn lemma_keep_alive_default(version: Seq<u8>, headers: HeaderSeq)
    ensures
        header_value(headers, connection()) is None ==> keep_alive_spec(http11(), headers),
        header_value(headers, connection()) == Some(token_close()) ==> !keep_alive_spec(
            version,
            headers,
        ),
{
    reveal(keep_alive_spec);
    let none = Seq::<u8>::empty();
    assert forall|i: int| !occurs_at(none, token_close(), i) by {
        assert(token_close().len() == 5);
    }
    assert forall|i: int| !occurs_at(none, token_keep_alive(), i) by {
        assert(token_keep_alive().len() == 10);
    }
    if header_value(headers, connection()) == Some(token_close()) {
        let named = lowered(token_close());
        assert(named =~= token_close());
        assert(named.subrange(0, 5) =~= token_close());
        assert(occurs_at(named, token_close(), 0));
    }
}

} // verus!
