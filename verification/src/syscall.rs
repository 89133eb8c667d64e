use vstd::prelude::*;

verus! {

/// The name that the riscv32 system-call table of the `syscalls` crate gives
/// to a call number, if the number is in that table.
pub uninterp spec fn riscv32_syscall_name(number: u32) -> Option<Seq<char>>;

/// The number that the host's system-call table of the `syscalls` crate gives
/// to a call name, if the name is in that table.
pub uninterp spec fn host_syscall_number(name: Seq<char>) -> Option<usize>;

/// Looks a riscv32 call number up in `syscalls::riscv32::Sysno`
/// (`Sysno::new`, then `Sysno::name`). Claimed: the result is the table's
/// name for `number`, `None` where the table has no such number.
#[verifier::external_body]
fn riscv32_name_of(number: u32) -> (r: Option<&'static str>)
    ensures
        match r {
            Some(name) => riscv32_syscall_name(number) == Some(name@),
            None => riscv32_syscall_name(number) is None,
        },
{
    syscalls::riscv32::Sysno::new(number as usize).map(|sysno| sysno.name())
}

/// Looks a call name up in the host's `syscalls::Sysno` (its `FromStr`
/// impl, then `Sysno::id`). Claimed: the result is the host table's number
/// for `name`, `None` where the table has no such name.
#[verifier::external_body]
fn host_number_of(name: &str) -> (r: Option<usize>)
    ensures
        r == host_syscall_number(name@),
{
    name.parse::<syscalls::Sysno>().ok().map(|sysno| sysno.id() as usize)
}

/// The host call number that carries out the riscv32 call `number`: the
/// host call of the same name.
pub open spec fn host_syscall(number: u32) -> Option<usize> {
    match riscv32_syscall_name(number) {
        Some(name) => host_syscall_number(name),
        None => None,
    }
}

/// Translates a riscv32 system-call number into the number of the host's
/// system call of the same name; `None` where either table lacks it.
pub fn translate_syscall(number: u32) -> (r: Option<usize>)
    ensures
        r == host_syscall(number),
{
    match riscv32_name_of(number) {
        Some(name) => host_number_of(name),
        None => None,
    }
}

} // verus!
