use vstd::prelude::*;
use crate::status::AppSW;

verus! {

/// Deepest derivation path accepted.
pub const MAX_PATH_DEPTH: usize = 10;

/// The 32-bit unsigned value of four big-endian bytes.
pub open spec fn be_u32(b: Seq<u8>) -> u32 {
    (b[0] as int * 0x1000000 + b[1] as int * 0x10000 + b[2] as int * 0x100 + b[3] as int) as u32
}

/// The consecutive big-endian 32-bit words of `b`.
pub open spec fn be_words(b: Seq<u8>) -> Seq<u32> {
    Seq::new(b.len() / 4, |i: int| be_u32(b.subrange(4 * i, 4 * i + 4)))
}

/// Number of payload bytes that hold the path, the chain id taken off.
pub open spec fn path_len(data: Seq<u8>, with_chain_id: bool) -> int {
    if with_chain_id {
        data.len() - 4
    } else {
        data.len() as int
    }
}

/// The path and chain id that a payload holds, if it is well formed: a
/// non-empty whole number of 4-byte components, at most `MAX_PATH_DEPTH` of
/// them, followed by a 4-byte chain id where one is expected.
pub open spec fn parsed_path(data: Seq<u8>, with_chain_id: bool) -> Option<(Seq<u32>, Option<u32>)> {
    let n = path_len(data, with_chain_id);
    if n > 0 && n % 4 == 0 && n / 4 <= MAX_PATH_DEPTH {
        Some(
            (
                be_words(data.subrange(0, n)),
                if with_chain_id {
                    Some(be_u32(data.subrange(n, n + 4)))
                } else {
                    None
                },
            ),
        )
    } else {
        None
    }
}

/// A derivation path, with the chain id that came after it when the address
/// is to be shown.
#[derive(Debug, PartialEq, Eq)]
pub struct PathRequest {
    pub path: Vec<u32>,
    pub chain_id: Option<u32>,
}

fn read_be_u32(data: &[u8], at: usize) -> (r: u32)
    requires
        at + 4 <= data@.len(),
    ensures
        r == be_u32(data@.subrange(at as int, at + 4)),
{
    let v: u32 = data[at] as u32 * 0x1000000 + data[at + 1] as u32 * 0x10000 + data[at + 2] as u32
        * 0x100 + data[at + 3] as u32;
    v
}

/// Splits a request payload into a derivation path and, when `with_chain_id`
/// holds, the big-endian chain id in its last four bytes.
pub fn parse_path(data: &[u8], with_chain_id: bool) -> (res: Result<PathRequest, AppSW>)
    ensures
        match parsed_path(data@, with_chain_id) {
            Some((path, chain_id)) => res matches Ok(p) && p.path@ == path && p.chain_id
                == chain_id,
            None => res == Err::<PathRequest, AppSW>(AppSW::WrongApduLength),
        },
{
    if with_chain_id && data.len() < 4 {
        return Err(AppSW::WrongApduLength);
    }
    let n: usize = if with_chain_id {
        data.len() - 4
    } else {
        data.len()
    };
    if n == 0 || n % 4 != 0 || n / 4 > MAX_PATH_DEPTH {
        return Err(AppSW::WrongApduLength);
    }
    let ghost body = data@.subrange(0, n as int);
    let mut path: Vec<u32> = Vec::new();
    let mut i: usize = 0;
    while i < n / 4
        invariant
            n <= data@.len(),
            n % 4 == 0,
            i <= n / 4,
            body == data@.subrange(0, n as int),
            path@.len() == i,
            forall|j: int| 0 <= j < i ==> path@[j] == be_words(body)[j],
        decreases n / 4 - i,
    {
        let w = read_be_u32(data, 4 * i);
        assert(data@.subrange(4 * i, 4 * i + 4) =~= body.subrange(4 * i, 4 * i + 4));
        path.push(w);
        i += 1;
    }
    assert(path@ =~= be_words(body));
    let chain_id = if with_chain_id {
        Some(read_be_u32(data, n))
    } else {
        None
    };
    Ok(PathRequest { path, chain_id })
}

/// A payload whose path part is not a whole number of 4-byte components is
/// rejected.
pub proof fn lemma_partial_component_rejected(data: Seq<u8>, with_chain_id: bool)
    requires
        path_len(data, with_chain_id) % 4 != 0,
    ensures
        parsed_path(data, with_chain_id) is None,
{
}

} // verus!
