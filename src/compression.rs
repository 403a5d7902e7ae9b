//! The archive step: a password-protected 7z archive with an encrypted
//! header, written next to the dump.

use crate::database::{CommandView, ToolCommand};
use crate::naming::{archive_of, archive_path};
use vstd::prelude::*;

verus! {

/// `7z a -t7z -m0=lzma2 -mhe=on -pPASSWORD ARCHIVE DUMP`.
pub open spec fn archive_command_view(dump: Seq<char>, password: Seq<char>) -> CommandView {
    CommandView {
        program: "7z"@,
        args: seq![
            "a"@,
            "-t7z"@,
            "-m0=lzma2"@,
            "-mhe=on"@,
            "-p"@ + password,
            archive_of(dump),
            dump,
        ],
        env: Seq::empty(),
    }
}

/// What the archive step runs and the archive it produces.
#[derive(Debug)]
pub struct ArchivePlan {
    pub command: ToolCommand,
    pub archive_path: String,
}

/// The command that compresses and encrypts `input_file` with `password`
/// (contents and header), and the path of the archive it writes. The dump
/// itself is left in place.
pub fn archive_command(input_file: &str, password: &str) -> (r: ArchivePlan)
    requires
        input_file@.len() < 0x1_0000_0000,
    ensures
        r.command@ == archive_command_view(input_file@, password@),
        r.archive_path@ == archive_of(input_file@),
{
    let output = archive_path(input_file);
    let mut pass_flag = String::from_str("-p");
    pass_flag.append(password);
    let mut args: Vec<String> = Vec::new();
    args.push(String::from_str("a"));
    args.push(String::from_str("-t7z"));
    args.push(String::from_str("-m0=lzma2"));
    args.push(String::from_str("-mhe=on"));
    args.push(pass_flag);
    args.push(output.clone());
    args.push(String::from_str(input_file));
    let command = ToolCommand { program: String::from_str("7z"), args, env: Vec::new() };
    assert(command@.args =~= archive_command_view(input_file@, password@).args);
    assert(command@.env =~= archive_command_view(input_file@, password@).env);
    ArchivePlan { command, archive_path: output }
}

} // verus!
