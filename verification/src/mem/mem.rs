use vstd::prelude::*;

verus! {

/// Whether an address may be dereferenced: anything but null.
pub fn is_addr_valid(addr: usize) -> (res: bool)
    ensures
        res == (addr != 0),
{
    addr != 0
}

/// A module file name that ends in `.exe`: the process's own executable among its modules.
pub open spec fn names_executable(name: Seq<char>) -> bool {
    name.len() >= 4 && name.subrange(name.len() - 4, name.len() as int) == ".exe"@
}

/// Whether the module file name `name` ends in `.exe` (the module whose address range is the
/// process image's).
pub fn is_executable_module(name: &str) -> (res: bool)
    ensures
        res == names_executable(name@),
{
    proof {
        reveal_strlit(".exe");
    }
    let n = name.unicode_len();
    if n < 4 {
        return false;
    }
    let ghost tail = name@.subrange(n - 4, n as int);
    let r = name.get_char(n - 4) == '.' && name.get_char(n - 3) == 'e' && name.get_char(n - 2) == 'x'
        && name.get_char(n - 1) == 'e';
    proof {
        if r {
            assert(tail =~= ".exe"@);
        } else {
            assert(tail[0] != '.' || tail[1] != 'e' || tail[2] != 'x' || tail[3] != 'e');
            assert(tail != ".exe"@);
        }
    }
    r
}

} // verus!
