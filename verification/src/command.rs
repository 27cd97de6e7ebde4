//! Which command lines can be handed to the kernel.

use vstd::prelude::*;
use vstd::slice::slice_to_vec;

use crate::error::Error;

verus! {

/// No byte of `bytes` is null.
pub open spec fn nul_free(bytes: Seq<u8>) -> bool {
    forall|i: int| 0 <= i < bytes.len() ==> bytes[i] != 0
}

/// Neither an element of `command` nor `arg0` holds a null byte.
pub open spec fn valid_command(command: Seq<Vec<u8>>, arg0: Seq<u8>) -> bool {
    &&& forall|i: int| 0 <= i < command.len() ==> nul_free(#[trigger] command[i]@)
    &&& nul_free(arg0)
}

/// Returns whether no byte of `bytes` is null.
pub fn is_nul_free(bytes: &[u8]) -> (free: bool)
    ensures
        free == nul_free(bytes@),
{
    let mut i: usize = 0;
    while i < bytes.len()
        invariant
            i <= bytes.len(),
            forall|j: int| 0 <= j < i ==> bytes@[j] != 0,
        decreases bytes.len() - i,
    {
        if bytes[i] == 0 {
            return false;
        }
        i = i + 1;
    }
    true
}

/// Checks a command line, and the replacement for its first argument,
/// before anything is spawned.
///
/// Each of them is handed to the kernel as a string that ends at the first
/// null byte, so none may hold one.
pub fn check_command(command: &[Vec<u8>], arg0: &[u8]) -> (r: Result<(), Error>)
    ensures
        r is Ok <==> valid_command(command@, arg0@),
        r matches Err(e) ==> e is InvalidCommand,
{
    let mut i: usize = 0;
    while i < command.len()
        invariant
            i <= command.len(),
            forall|j: int| 0 <= j < i ==> nul_free(#[trigger] command@[j]@),
        decreases command.len() - i,
    {
        if !is_nul_free(command[i].as_slice()) {
            return Err(Error::InvalidCommand);
        }
        i = i + 1;
    }
    if !is_nul_free(arg0) {
        return Err(Error::InvalidCommand);
    }
    Ok(())
}

/// The arguments that the program sees when `command` is run with `arg0` in
/// place of its first element.
pub open spec fn arguments_spec(command: Seq<Vec<u8>>, arg0: Seq<u8>) -> Seq<Seq<u8>> {
    Seq::new(command.len(), |i: int| if i == 0 { arg0 } else { command[i]@ })
}

/// The arguments of `arguments`, each as a sequence of bytes.
pub open spec fn argument_views(arguments: Seq<Vec<u8>>) -> Seq<Seq<u8>> {
    arguments.map_values(|a: Vec<u8>| a@)
}

/// Returns the arguments that the program sees when `command` is run with
/// `arg0` in place of its first element. The program that is run is still
/// the first element of `command`.
pub fn arguments(command: &[Vec<u8>], arg0: &[u8]) -> (args: Vec<Vec<u8>>)
    requires
        command.len() > 0,
    ensures
        argument_views(args@) == arguments_spec(command@, arg0@),
{
    let mut args: Vec<Vec<u8>> = Vec::new();
    args.push(slice_to_vec(arg0));
    let mut i: usize = 1;
    while i < command.len()
        invariant
            1 <= i <= command.len(),
            args.len() == i,
            args@[0]@ == arg0@,
            forall|j: int| 1 <= j < i ==> (#[trigger] args@[j])@ == command@[j]@,
        decreases command.len() - i,
    {
        args.push(slice_to_vec(command[i].as_slice()));
        i = i + 1;
    }
    args
}

} // verus!
