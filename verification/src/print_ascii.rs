//! The banner that is logged when the proxy starts.
use vstd::prelude::*;

verus! {

/// The first line that is logged at the start.
pub const RUNNING: &'static str = "port-forwarder is running";

/// A rocket, drawn in characters.
pub const ASCII_ROCKET: &'static str = r#"
			                                                   ,:
			                                                 ,' |
			                                                /   :
			                                             --'   /
			                                             \\/ />/
			                                             / /_\\
			                                          __/   /
			                                          )'-. /
			                                          ./  :\\
			                                           /.' '
			                                         '/'
			                                         +
			                                        '
			                                      `.
			                                  .-"-
			                                 (    |
			                              . .-'  '.
			                             ( (.   )8:
			                         .'    / (_  )
			                          _. :(.   )8P  `
			                      .  (  `-' (  `.   .
			                       .  :  (   .a8a)
			                      /_`( "a `a. )"'
			                  (  (/  .  ' )=='
			                 (   (    )  .8"   +
			                   (`'8a.( _(   (
			                ..-. `8P    ) `  )  +
			              -'   (      -ab:  )
			            '    _  `    (8P"Ya
			          _(    (    )b  -`.  ) +
			         ( 8)  ( _.aP" _a   \\( \\   *
			       +  )/    (8P   (88    )  )
			          (a:f   "     `"       `
"#;

/// The texts to log when the proxy starts, in order: the notice that it is
/// running, then the rocket.
pub fn print_rocket_std_output() -> (lines: (&'static str, &'static str))
    ensures
        lines.0@ == RUNNING@,
        lines.1@ == ASCII_ROCKET@,
{
    (RUNNING, ASCII_ROCKET)
}

} // verus!
