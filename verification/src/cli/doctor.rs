//! Options of the dependency-checking command.

use vstd::prelude::*;

verus! {

/// The options the dependency-checking command runs with.
#[derive(Debug)]
pub struct DoctorOptions {
    pub scripts_dir: String,
}

/// Accepts the dependency-checking command's arguments: it takes none.
pub fn parse_args(args: &Vec<String>, scripts_dir: String) -> (r: Result<DoctorOptions, String>)
    ensures
        args@.len() == 0 ==> (r matches Ok(o) && o.scripts_dir@ == scripts_dir@),
        args@.len() > 0 ==> (r matches Err(m) && m@ == "doctor does not accept arguments"@),
{
    if args.len() > 0 {
        return Err(
            crate::text::chars_to_string(
                &crate::text::str_to_chars("doctor does not accept arguments"),
            ),
        );
    }
    Ok(DoctorOptions { scripts_dir })
}

} // verus!
