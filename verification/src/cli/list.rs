//! Options of the script-listing command.

use vstd::prelude::*;

verus! {

/// The options the script-listing command runs with.
#[derive(Debug)]
pub struct ListOptions {
    pub scripts_dir: String,
}

/// Accepts the listing command's arguments: it takes none.
pub fn parse_args(args: &Vec<String>, scripts_dir: String) -> (r: Result<ListOptions, String>)
    ensures
        args@.len() == 0 ==> (r matches Ok(o) && o.scripts_dir@ == scripts_dir@),
        args@.len() > 0 ==> (r matches Err(m) && m@ == "scripts does not accept arguments"@),
{
    if args.len() > 0 {
        return Err(
            crate::text::chars_to_string(
                &crate::text::str_to_chars("scripts does not accept arguments"),
            ),
        );
    }
    Ok(ListOptions { scripts_dir })
}

} // verus!
