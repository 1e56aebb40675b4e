//! Reading a command back from its packed form, so that bytes that are
//! ready for the wire can still be routed.

use crate::command::{decimal_bytes, packed, packed_arg, packed_args, Cmd};
use vstd::prelude::*;
use vstd::slice::slice_subrange;

verus! {

/// True for the ASCII digits.
pub open spec fn is_digit(b: u8) -> bool {
    48 <= b <= 57
}

/// True when the numeral of `n` stands in `bytes` at `from` and a carriage
/// return follows it.
pub open spec fn number_at(bytes: Seq<u8>, from: int, n: nat) -> bool {
    let upto = from + decimal_bytes(n).len();
    &&& 0 <= from
    &&& upto < bytes.len()
    &&& bytes.subrange(from, upto) == decimal_bytes(n)
    &&& bytes[upto] == 13
}

/// A numeral is made of digits, has at least one, has two or more from ten
/// on, and starts with a zero only for zero.
proof fn lemma_decimal_digits(n: nat)
    ensures
        decimal_bytes(n).len() >= 1,
        n >= 10 ==> decimal_bytes(n).len() >= 2,
        forall|i: int| 0 <= i < decimal_bytes(n).len() ==> is_digit(#[trigger] decimal_bytes(n)[i]),
        decimal_bytes(n)[0] == 48 ==> n == 0,
    decreases n,
{
    if n >= 10 {
        lemma_decimal_digits(n / 10);
    }
}

/// Where the numeral of `a` begins the numeral of `n`, `a` is at most `n`,
/// and equal to it where the numerals are equally long.
proof fn lemma_decimal_prefix(a: nat, n: nat)
    requires
        decimal_bytes(a).len() <= decimal_bytes(n).len(),
        decimal_bytes(n).subrange(0, decimal_bytes(a).len() as int) == decimal_bytes(a),
    ensures
        a <= n,
        decimal_bytes(a).len() == decimal_bytes(n).len() ==> a == n,
    decreases n,
{
    lemma_decimal_digits(a);
    lemma_decimal_digits(n);
    let short = decimal_bytes(a);
    let long = decimal_bytes(n);
    if n < 10 {
        assert(long.subrange(0, 1)[0] == long[0]);
    } else {
        let most = decimal_bytes(n / 10);
        assert(long == most.push((48 + n % 10) as u8));
        if short.len() < long.len() {
            assert(most.subrange(0, short.len() as int) =~= long.subrange(0, short.len() as int));
            lemma_decimal_prefix(a, n / 10);
        } else {
            assert(long.subrange(0, long.len() as int) =~= long);
            let fewer = decimal_bytes(a / 10);
            assert(short == fewer.push((48 + a % 10) as u8));
            assert(fewer =~= short.drop_last());
            assert(most =~= long.drop_last());
            assert(most.subrange(0, fewer.len() as int) =~= most);
            lemma_decimal_prefix(a / 10, n / 10);
            assert(short.last() == long.last());
        }
    }
}

/// At most one numeral stands at a place.
proof fn lemma_one_number(bytes: Seq<u8>, from: int, a: nat, b: nat)
    requires
        number_at(bytes, from, a),
        number_at(bytes, from, b),
    ensures
        a == b,
{
    lemma_decimal_digits(a);
    lemma_decimal_digits(b);
    let one = decimal_bytes(a);
    let other = decimal_bytes(b);
    if one.len() < other.len() {
        assert(bytes.subrange(from, from + other.len())[one.len() as int] == bytes[from
            + one.len()]);
    } else if other.len() < one.len() {
        assert(bytes.subrange(from, from + one.len())[other.len() as int] == bytes[from
            + other.len()]);
    } else {
        assert(other.subrange(0, one.len() as int) =~= other);
        lemma_decimal_prefix(a, b);
    }
}

/// Where the bytes from `from` up to `upto` spell `found`, a numeral that
/// stands at `from` reaches at least as far and is of a number at least as
/// great: of `found` itself where it ends at `upto`, and else with a digit
/// at `upto`.
proof fn lemma_no_number(bytes: Seq<u8>, from: int, upto: int, found: nat, n: nat)
    requires
        0 <= from < upto <= bytes.len(),
        bytes.subrange(from, upto) == decimal_bytes(found),
        number_at(bytes, from, n),
    ensures
        from + decimal_bytes(n).len() >= upto,
        found <= n,
        from + decimal_bytes(n).len() == upto ==> found == n,
        from + decimal_bytes(n).len() > upto ==> is_digit(bytes[upto]),
{
    lemma_decimal_digits(found);
    lemma_decimal_digits(n);
    let end = from + decimal_bytes(n).len();
    if end < upto {
        assert(bytes.subrange(from, upto)[end - from] == bytes[end]);
    } else {
        assert(decimal_bytes(n).subrange(0, upto - from) =~= decimal_bytes(found)) by {
            assert forall|j: int| 0 <= j < upto - from implies decimal_bytes(n)[j]
                == decimal_bytes(found)[j] by {
                assert(bytes.subrange(from, end)[j] == bytes[from + j]);
                assert(bytes.subrange(from, upto)[j] == bytes[from + j]);
            }
        }
        lemma_decimal_prefix(found, n);
        if end > upto {
            assert(bytes.subrange(from, end)[upto - from] == bytes[upto]);
        }
    }
}

/// Reads the numeral at `from` that a carriage return follows: the number
/// and the place of the carriage return. Numbers above the length of
/// `bytes` are not read.
fn read_number(bytes: &[u8], from: usize) -> (r: Option<(usize, usize)>)
    requires
        from <= bytes.len(),
    ensures
        match r {
            Some((n, next)) => number_at(bytes@, from as int, n as nat) && next == from
                + decimal_bytes(n as nat).len(),
            None => forall|n: nat| n <= bytes.len() ==> !number_at(bytes@, from as int, n),
        },
{
    let mut i: usize = from;
    let mut found: usize = 0;
    while i < bytes.len() && 48 <= bytes[i] && bytes[i] <= 57
        invariant
            from <= i <= bytes.len(),
            found <= bytes.len(),
            i == from ==> found == 0,
            i > from ==> bytes@.subrange(from as int, i as int) == decimal_bytes(found as nat),
        decreases bytes.len() - i,
    {
        let digit: usize = (bytes[i] - 48) as usize;
        let ghost next: nat = (found * 10 + digit) as nat;
        proof {
            if i > from {
                if found == 0 {
                    assert(bytes@.subrange(from as int, i as int).len() == 1);
                    assert forall|n: nat| !number_at(bytes@, from as int, n) by {
                        if number_at(bytes@, from as int, n) {
                            lemma_no_number(bytes@, from as int, i as int, 0, n);
                            lemma_decimal_digits(n);
                            assert(bytes@.subrange(
                                from as int,
                                from + decimal_bytes(n).len(),
                            )[0] == bytes@[from as int]);
                            assert(bytes@.subrange(from as int, i as int)[0] == bytes@[from as int]);
                        }
                    }
                } else {
                    assert(bytes@.subrange(from as int, i + 1) =~= decimal_bytes(
                        found as nat,
                    ).push(bytes@[i as int]));
                    assert(next / 10 == found && next % 10 == digit) by (nonlinear_arith)
                        requires
                            next == found * 10 + digit,
                            digit < 10,
                    ;
                }
            } else {
                assert(bytes@.subrange(from as int, i + 1) =~= seq![bytes@[i as int]]);
            }
        }
        if i > from && found == 0 {
            return None;
        }
        proof {
            assert(bytes@.subrange(from as int, i + 1) == decimal_bytes(next));
            if next > bytes.len() {
                assert forall|n: nat| n <= bytes.len() implies !number_at(
                    bytes@,
                    from as int,
                    n,
                ) by {
                    if number_at(bytes@, from as int, n) {
                        lemma_no_number(bytes@, from as int, i + 1, next, n);
                    }
                }
            }
        }
        if found > bytes.len() / 10 {
            return None;
        }
        let tens: usize = found * 10;
        if digit > bytes.len() - tens {
            return None;
        }
        found = tens + digit;
        i += 1;
    }
    if i == from || i >= bytes.len() || bytes[i] != 13 {
        proof {
            assert forall|n: nat| !number_at(bytes@, from as int, n) by {
                if number_at(bytes@, from as int, n) {
                    lemma_decimal_digits(n);
                    if i == from {
                        assert(bytes@.subrange(from as int, from + decimal_bytes(n).len())[0]
                            == bytes@[from as int]);
                    } else {
                        lemma_no_number(bytes@, from as int, i as int, found as nat, n);
                    }
                }
            }
        }
        return None;
    }
    Some((found, i))
}

/// What stands before the arguments of a packed command of `count`
/// arguments: `*`, the count, a line break.
pub open spec fn head(count: nat) -> Seq<u8> {
    seq![0x2au8] + decimal_bytes(count) + seq![13u8, 10u8]
}

/// The place in its packed form at which argument `k` of `args` begins.
pub open spec fn arg_start(args: Seq<Seq<u8>>, k: int) -> int {
    (head(args.len()).len() + packed_args(args, k).len()) as int
}

/// True when `bytes` begins with the packed form of `args`.
pub open spec fn begins_with(bytes: Seq<u8>, args: Seq<Seq<u8>>) -> bool {
    packed(args).len() <= bytes.len() && bytes.subrange(0, packed(args).len() as int) == packed(
        args,
    )
}

/// The packed form of the first `k` arguments begins that of the first
/// `n`, and has at least `k` bytes.
proof fn lemma_packed_prefix(args: Seq<Seq<u8>>, k: int, n: int)
    requires
        0 <= k <= n,
    ensures
        k <= packed_args(args, k).len() <= packed_args(args, n).len(),
        packed_args(args, n).subrange(0, packed_args(args, k).len() as int) == packed_args(
            args,
            k,
        ),
    decreases n,
{
    if k < n {
        lemma_packed_prefix(args, k, n - 1);
        assert(packed_args(args, n).subrange(0, packed_args(args, k).len() as int)
            =~= packed_args(args, n - 1).subrange(0, packed_args(args, k).len() as int));
    } else {
        assert(packed_args(args, n).subrange(0, packed_args(args, n).len() as int)
            =~= packed_args(args, n));
        lemma_packed_length(args, k);
    }
}

/// The packed form of `k` arguments has at least `k` bytes.
proof fn lemma_packed_length(args: Seq<Seq<u8>>, k: int)
    requires
        0 <= k,
    ensures
        k <= packed_args(args, k).len(),
    decreases k,
{
    if k > 0 {
        lemma_packed_length(args, k - 1);
    }
}

/// How bytes that begin with a packed command begin: with `*`, the number
/// of arguments and a line break.
proof fn lemma_head_at(bytes: Seq<u8>, args: Seq<Seq<u8>>)
    requires
        begins_with(bytes, args),
    ensures
        bytes.len() > 0,
        bytes[0] == 0x2a,
        number_at(bytes, 1, args.len()),
        1 + decimal_bytes(args.len()).len() + 1 < bytes.len(),
        bytes[1 + decimal_bytes(args.len()).len() as int + 1] == 10,
        args.len() <= bytes.len(),
        arg_start(args, 0) == 1 + decimal_bytes(args.len()).len() + 2,
{
    let whole = packed(args);
    let count = decimal_bytes(args.len());
    let width = count.len() as int;
    lemma_packed_length(args, args.len() as int);
    assert forall|j: int| 0 <= j < whole.len() implies bytes[j] == whole[j] by {
        assert(bytes.subrange(0, whole.len() as int)[j] == bytes[j]);
    }
    assert(whole[0] == 0x2a);
    assert(whole[1 + width] == 13);
    assert(whole[1 + width + 1] == 10);
    assert(bytes.subrange(1, 1 + width) =~= count) by {
        assert forall|j: int| 0 <= j < width implies bytes[1 + j] == count[j] by {
            assert(whole[1 + j] == count[j]);
        }
    }
}

/// How argument `k` stands in bytes that begin with a packed command: `$`,
/// its length, a line break, its bytes, a line break.
proof fn lemma_arg_at(bytes: Seq<u8>, args: Seq<Seq<u8>>, k: int)
    requires
        begins_with(bytes, args),
        0 <= k < args.len(),
    ensures
        ({
            let at = arg_start(args, k);
            let size = args[k].len() as int;
            let data = at + 1 + decimal_bytes(size as nat).len() as int + 2;
            &&& 0 <= at
            &&& data + size + 2 <= bytes.len()
            &&& bytes[at] == 0x24
            &&& number_at(bytes, at + 1, size as nat)
            &&& bytes[data - 1] == 10
            &&& bytes.subrange(data, data + size) == args[k]
            &&& bytes[data + size] == 13
            &&& bytes[data + size + 1] == 10
            &&& arg_start(args, k + 1) == data + size + 2
        }),
{
    let whole = packed(args);
    let all = packed_args(args, args.len() as int);
    let before = packed_args(args, k);
    let one = packed_arg(args[k]);
    let at = arg_start(args, k);
    let size = args[k].len() as int;
    let numeral = decimal_bytes(size as nat);
    let width = numeral.len() as int;
    let data = at + 1 + width + 2;
    lemma_packed_prefix(args, k + 1, args.len() as int);
    assert(packed_args(args, k + 1) == before + one);
    assert forall|j: int| 0 <= j < one.len() implies bytes[at + j] == one[j] by {
        assert(bytes.subrange(0, whole.len() as int)[at + j] == bytes[at + j]);
        assert(whole[at + j] == all[before.len() + j]);
        assert(all.subrange(0, (before + one).len() as int)[before.len() + j] == all[before.len()
            + j]);
    }
    assert(one[0] == 0x24);
    assert(one[1 + width] == 13);
    assert(one[1 + width + 1] == 10);
    assert(one[1 + width + 2 + size] == 13);
    assert(one[1 + width + 2 + size + 1] == 10);
    assert(bytes.subrange(at + 1, at + 1 + width) =~= numeral) by {
        assert forall|j: int| 0 <= j < width implies bytes[at + 1 + j] == numeral[j] by {
            assert(one[1 + j] == numeral[j]);
        }
    }
    assert(bytes.subrange(data, data + size) =~= args[k]) by {
        assert forall|j: int| 0 <= j < size implies bytes[data + j] == args[k][j] by {
            assert(one[1 + width + 2 + j] == args[k][j]);
        }
    }
}

/// Reads the packed command that `bytes` begin with, if they begin with
/// one. At most one command fits.
pub fn read_packed(bytes: &[u8]) -> (r: Option<Cmd>)
    ensures
        match r {
            Some(command) => begins_with(bytes@, command@) && forall|args: Seq<Seq<u8>>| #[trigger]
                begins_with(bytes@, args) ==> args == command@,
            None => forall|args: Seq<Seq<u8>>| !#[trigger] begins_with(bytes@, args),
        },
{
    proof {
        assert forall|args: Seq<Seq<u8>>| #[trigger] begins_with(bytes@, args) implies bytes@.len()
            > 0 && bytes@[0] == 0x2a && number_at(bytes@, 1, args.len()) && args.len()
            <= bytes@.len() && bytes@[1 + decimal_bytes(args.len()).len() as int + 1] == 10 && 1
            + decimal_bytes(args.len()).len() + 1 < bytes@.len() && arg_start(args, 0) == 1
            + decimal_bytes(args.len()).len() + 2 by {
            lemma_head_at(bytes@, args);
        }
    }
    if bytes.len() == 0 || bytes[0] != 0x2a {
        return None;
    }
    let (count, after) = match read_number(bytes, 1) {
        Some(read) => read,
        None => {
            return None;
        },
    };
    proof {
        assert forall|args: Seq<Seq<u8>>| #[trigger] begins_with(bytes@, args) implies args.len()
            == count by {
            lemma_one_number(bytes@, 1, args.len(), count as nat);
        }
    }
    if bytes.len() - after < 2 || bytes[after + 1] != 10 {
        return None;
    }
    let mut at: usize = after + 2;
    let mut command = Cmd::new();
    let mut k: usize = 0;
    proof {
        assert(bytes@.subrange(0, at as int) =~= head(count as nat) + packed_args(command@, 0)) by {
            assert forall|j: int| 0 <= j < decimal_bytes(count as nat).len() implies bytes@[1 + j]
                == decimal_bytes(count as nat)[j] by {
                assert(bytes@.subrange(1, after as int)[j] == bytes@[1 + j]);
            }
        }
    }
    while k < count
        invariant
            k <= count,
            at <= bytes.len(),
            command@.len() == k,
            bytes@.subrange(0, at as int) == head(count as nat) + packed_args(command@, k as int),
            forall|args: Seq<Seq<u8>>| #[trigger]
                begins_with(bytes@, args) ==> {
                    &&& args.len() == count
                    &&& at == arg_start(args, k as int)
                    &&& forall|j: int| 0 <= j < k ==> args[j] == command@[j]
                },
        decreases count - k,
    {
        proof {
            assert forall|args: Seq<Seq<u8>>| #[trigger] begins_with(bytes@, args) implies {
                let size = args[k as int].len() as int;
                let data = at + 1 + decimal_bytes(size as nat).len() as int + 2;
                &&& data + size + 2 <= bytes@.len()
                &&& bytes@[at as int] == 0x24
                &&& number_at(bytes@, at + 1, size as nat)
                &&& bytes@[data - 1] == 10
                &&& bytes@.subrange(data, data + size) == args[k as int]
                &&& bytes@[data + size] == 13
                &&& bytes@[data + size + 1] == 10
                &&& arg_start(args, k + 1) == data + size + 2
            } by {
                lemma_arg_at(bytes@, args, k as int);
            }
        }
        if at >= bytes.len() || bytes[at] != 0x24 {
            return None;
        }
        let (size, after) = match read_number(bytes, at + 1) {
            Some(read) => read,
            None => {
                return None;
            },
        };
        proof {
            assert forall|args: Seq<Seq<u8>>| #[trigger] begins_with(bytes@, args) implies args[k as int].len()
                == size by {
                lemma_one_number(bytes@, at + 1, args[k as int].len(), size as nat);
            }
        }
        if bytes.len() - after < 2 || bytes[after + 1] != 10 {
            return None;
        }
        let data: usize = after + 2;
        if size > bytes.len() - data {
            return None;
        }
        let end: usize = data + size;
        if bytes.len() - end < 2 || bytes[end] != 13 || bytes[end + 1] != 10 {
            return None;
        }
        let ghost before = command@;
        let arg = slice_subrange(bytes, data, end);
        command.arg(arg);
        proof {
            let one = packed_arg(arg@);
            assert(command@ == before.push(arg@));
            lemma_same_args(before, command@, k as int);
            assert(packed_args(command@, k + 1) == packed_args(before, k as int) + one);
            assert(bytes@.subrange(at as int, end + 2) =~= one) by {
                assert forall|j: int| 0 <= j < decimal_bytes(size as nat).len() implies bytes@[at
                    + 1 + j] == decimal_bytes(size as nat)[j] by {
                    assert(bytes@.subrange(at + 1, after as int)[j] == bytes@[at + 1 + j]);
                }
            }
            assert(bytes@.subrange(0, end + 2) =~= bytes@.subrange(0, at as int) + bytes@.subrange(
                at as int,
                end + 2,
            ));
            assert(head(count as nat) + packed_args(before, k as int) + one =~= head(count as nat)
                + (packed_args(before, k as int) + one));
        }
        at = end + 2;
        k += 1;
    }
    proof {
        assert(bytes@.subrange(0, at as int) == packed(command@));
        assert forall|args: Seq<Seq<u8>>| #[trigger] begins_with(bytes@, args) implies args
            == command@ by {
            assert(args =~= command@);
        }
    }
    Some(command)
}

/// Reading undoes packing: bytes that are the packed form of a command,
/// with whatever follows, begin with that command, so that `read_packed`
/// gives it back.
pub proof fn lemma_read_undoes_packing(args: Seq<Seq<u8>>, rest: Seq<u8>)
    ensures
        begins_with(packed(args) + rest, args),
{
    assert((packed(args) + rest).subrange(0, packed(args).len() as int) =~= packed(args));
}

/// The packed form of the first `k` arguments depends on those arguments
/// alone.
proof fn lemma_same_args(a: Seq<Seq<u8>>, b: Seq<Seq<u8>>, k: int)
    requires
        0 <= k <= a.len(),
        k <= b.len(),
        forall|j: int| 0 <= j < k ==> a[j] == b[j],
    ensures
        packed_args(a, k) == packed_args(b, k),
    decreases k,
{
    if k > 0 {
        lemma_same_args(a, b, k - 1);
    }
}

} // verus!
