//! Where things live on disk: the piece directory under a storage root and
//! the file of each piece inside it. Paths are text with `/` as separator.

use vstd::prelude::*;
use vstd::string::StringExecFns;

verus! {

/// The decimal digit for `d`.
pub open spec fn digit_char(d: nat) -> char
    recommends
        d < 10,
{
    if d == 0 {
        '0'
    } else if d == 1 {
        '1'
    } else if d == 2 {
        '2'
    } else if d == 3 {
        '3'
    } else if d == 4 {
        '4'
    } else if d == 5 {
        '5'
    } else if d == 6 {
        '6'
    } else if d == 7 {
        '7'
    } else if d == 8 {
        '8'
    } else {
        '9'
    }
}

/// `n` in decimal, most significant digit first, without leading zeros.
pub open spec fn decimal(n: nat) -> Seq<char>
    decreases n,
{
    if n < 10 {
        seq![digit_char(n)]
    } else {
        decimal(n / 10).push(digit_char(n % 10))
    }
}

/// `leaf` placed under `dir`: a separator goes between them unless `dir` is
/// empty or already ends in one.
pub open spec fn joined(dir: Seq<char>, leaf: Seq<char>) -> Seq<char> {
    if dir.len() == 0 || dir.last() == '/' {
        dir + leaf
    } else {
        dir.push('/') + leaf
    }
}

/// The piece directory of the storage root `base`.
pub open spec fn pieces_dir_of(base: Seq<char>) -> Seq<char> {
    joined(base, ".pieces"@)
}

/// The name of the file that holds piece `index`.
pub open spec fn piece_file_name(index: u32) -> Seq<char> {
    decimal(index as nat) + ".piece"@
}

/// The file of piece `index` inside the piece directory `pieces_dir`.
pub open spec fn piece_path_of(pieces_dir: Seq<char>, index: u32) -> Seq<char> {
    joined(pieces_dir, piece_file_name(index))
}

fn digit_str(d: u32) -> (s: &'static str)
    requires
        d < 10,
    ensures
        s@ == seq![digit_char(d as nat)],
{
    proof {
        reveal_strlit("0");
        reveal_strlit("1");
        reveal_strlit("2");
        reveal_strlit("3");
        reveal_strlit("4");
        reveal_strlit("5");
        reveal_strlit("6");
        reveal_strlit("7");
        reveal_strlit("8");
        reveal_strlit("9");
    }
    let s = match d {
        0 => "0",
        1 => "1",
        2 => "2",
        3 => "3",
        4 => "4",
        5 => "5",
        6 => "6",
        7 => "7",
        8 => "8",
        _ => "9",
    };
    assert(s@ =~= seq![digit_char(d as nat)]);
    s
}

/// Appends `n` in decimal to `out`.
pub fn push_decimal(out: &mut String, n: u32)
    ensures
        final(out)@ == old(out)@ + decimal(n as nat),
    decreases n,
{
    if n >= 10 {
        push_decimal(out, n / 10);
    }
    out.append(digit_str(n % 10));
    assert(out@ =~= old(out)@ + decimal(n as nat));
}

/// Places `leaf` under `dir`.
pub fn join(dir: &str, leaf: &str) -> (path: String)
    ensures
        path@ == joined(dir@, leaf@),
{
    let mut path = String::from_str(dir);
    let n: usize = dir.unicode_len();
    if n > 0 && dir.get_char(n - 1) != '/' {
        proof {
            reveal_strlit("/");
        }
        path.append("/");
        assert(path@ =~= dir@.push('/'));
    }
    path.append(leaf);
    path
}

/// The piece directory of the storage root `base`.
pub fn pieces_dir(base: &str) -> (path: String)
    ensures
        path@ == pieces_dir_of(base@),
{
    join(base, ".pieces")
}

/// The file of piece `piece_index` inside `pieces_dir`.
pub fn piece_path(pieces_dir: &str, piece_index: u32) -> (path: String)
    ensures
        path@ == piece_path_of(pieces_dir@, piece_index),
{
    let mut name = String::new();
    push_decimal(&mut name, piece_index);
    name.append(".piece");
    assert(name@ =~= piece_file_name(piece_index));
    join(pieces_dir, name.as_str())
}

proof fn lemma_decimal_nonempty(n: nat)
    ensures
        decimal(n).len() >= 1,
    decreases n,
{
    if n >= 10 {
        lemma_decimal_nonempty(n / 10);
    }
}

proof fn lemma_digit_injective(a: nat, b: nat)
    requires
        a < 10,
        b < 10,
        digit_char(a) == digit_char(b),
    ensures
        a == b,
{
}

/// Two numbers with the same decimal form are the same number.
pub proof fn lemma_decimal_injective(a: nat, b: nat)
    requires
        decimal(a) == decimal(b),
    ensures
        a == b,
    decreases a,
{
    if a < 10 && b < 10 {
        assert(decimal(a)[0] == digit_char(a));
        assert(decimal(b)[0] == digit_char(b));
        lemma_digit_injective(a, b);
    } else if a < 10 {
        lemma_decimal_nonempty(b / 10);
        assert(decimal(a).len() == 1);
        assert(decimal(b).len() >= 2);
    } else if b < 10 {
        lemma_decimal_nonempty(a / 10);
        assert(decimal(b).len() == 1);
        assert(decimal(a).len() >= 2);
    } else {
        let pa = decimal(a / 10);
        let pb = decimal(b / 10);
        assert(decimal(a) == pa.push(digit_char(a % 10)));
        assert(decimal(b) == pb.push(digit_char(b % 10)));
        assert(pa.push(digit_char(a % 10)).drop_last() =~= pa);
        assert(pb.push(digit_char(b % 10)).drop_last() =~= pb);
        assert(pa.push(digit_char(a % 10)).last() == digit_char(a % 10));
        assert(pb.push(digit_char(b % 10)).last() == digit_char(b % 10));
        assert(pa == pb);
        lemma_decimal_injective(a / 10, b / 10);
        lemma_digit_injective(a % 10, b % 10);
        assert(a == 10 * (a / 10) + a % 10);
        assert(b == 10 * (b / 10) + b % 10);
    }
}

/// Under one directory, different leaves give different paths.
pub proof fn lemma_joined_injective(dir: Seq<char>, a: Seq<char>, b: Seq<char>)
    requires
        joined(dir, a) == joined(dir, b),
    ensures
        a == b,
{
    let head = if dir.len() == 0 || dir.last() == '/' {
        dir
    } else {
        dir.push('/')
    };
    assert((head + a).subrange(head.len() as int, (head + a).len() as int) =~= a);
    assert((head + b).subrange(head.len() as int, (head + b).len() as int) =~= b);
}

/// Inside one piece directory, no two pieces share a file.
pub proof fn lemma_piece_paths_distinct(pieces_dir: Seq<char>, i: u32, j: u32)
    requires
        i != j,
    ensures
        piece_path_of(pieces_dir, i) != piece_path_of(pieces_dir, j),
{
    if piece_path_of(pieces_dir, i) == piece_path_of(pieces_dir, j) {
        lemma_joined_injective(pieces_dir, piece_file_name(i), piece_file_name(j));
        let suffix = ".piece"@;
        let di = decimal(i as nat);
        let dj = decimal(j as nat);
        assert(di.len() == dj.len()) by {
            assert((di + suffix).len() == (dj + suffix).len());
        }
        assert((di + suffix).subrange(0, di.len() as int) =~= di);
        assert((dj + suffix).subrange(0, dj.len() as int) =~= dj);
        lemma_decimal_injective(i as nat, j as nat);
    }
}

/// The files of a piece directory, by path, once `bytes` have been written
/// in full to the file of piece `index`.
pub open spec fn files_after_store(
    files: Map<Seq<char>, Seq<u8>>,
    pieces_dir: Seq<char>,
    index: u32,
    bytes: Seq<u8>,
) -> Map<Seq<char>, Seq<u8>> {
    files.insert(piece_path_of(pieces_dir, index), bytes)
}

/// After a piece is stored its file holds exactly the bytes given, and the
/// file of every other piece is as it was, present or absent.
pub proof fn lemma_store_then_read(
    files: Map<Seq<char>, Seq<u8>>,
    pieces_dir: Seq<char>,
    index: u32,
    bytes: Seq<u8>,
    other: u32,
)
    ensures
        files_after_store(files, pieces_dir, index, bytes).contains_key(
            piece_path_of(pieces_dir, index),
        ),
        files_after_store(files, pieces_dir, index, bytes)[piece_path_of(pieces_dir, index)]
            == bytes,
        other != index ==> files_after_store(files, pieces_dir, index, bytes).contains_key(
            piece_path_of(pieces_dir, other),
        ) == files.contains_key(piece_path_of(pieces_dir, other)),
        other != index ==> files_after_store(files, pieces_dir, index, bytes)[piece_path_of(
            pieces_dir,
            other,
        )] == files[piece_path_of(pieces_dir, other)],
{
    if other != index {
        lemma_piece_paths_distinct(pieces_dir, index, other);
    }
}

} // verus!
