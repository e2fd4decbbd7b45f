//! Options of the configuration-printing command.

use vstd::prelude::*;

verus! {

/// The options the configuration command runs with.
#[derive(Debug)]
pub struct ConfigOptions {
    pub scripts_dir: String,
}

/// Accepts the configuration command's arguments: it takes none.
pub fn parse_args(args: &Vec<String>, scripts_dir: String) -> (r: Result<ConfigOptions, String>)
    ensures
        args@.len() == 0 ==> (r matches Ok(o) && o.scripts_dir@ == scripts_dir@),
        args@.len() > 0 ==> (r matches Err(m) && m@ == "config does not accept arguments"@),
{
    if args.len() > 0 {
        return Err(
            crate::text::chars_to_string(
                &crate::text::str_to_chars("config does not accept arguments"),
            ),
        );
    }
    Ok(ConfigOptions { scripts_dir })
}

} // verus!
