//! The help text shown when the viewer is asked for usage information.

use vstd::prelude::*;

verus! {

/// The usage text, with the default window size already spelled out.
pub const HELP_TEXT: &'static str = "

Program:  JLR-Mandelbrot
          A Mandelbrot set viewer.

Usage:  jlr-mandelbrot [options]
Example usages:
   jlr-mandelbrot
   jlr-mandelbrot --size=256
   jlr-mandelbrot --bailout=150
   jlr-mandelbrot --julia=-0.835,-0.232

Options:
   -h, --help
      Shows this help text and exits.
   --size=NUMBER
      Displays the image in a square window of NUMBER by NUMBER pixels.
      (512 is the default.)
   --bailout=NUMBER
      Uses a bailout number, or a maximum number of iterations.
      If this number is reached, then a point is considered to
      be part of the set.  (A bailout number is not used by default.)
   --julia=X,Y
      Instead of a Mandelbrot set, a Julia set will be generated
      using X+Yi as the value for c.

Once the image is displayed:
   A left-click of the mouse zooms in.
   A right-click of the mouse zooms out.
   Pressing the C key will print coordinates to the console.
   Pressing the S key will save a screenshot in PNG format.
   Pressing the Q key will quit.
   Pressing the Escape key will also quit.

Author:  Jean-Luc Romano
e-mail:  jl_post@hotmail.com

";

/// Returns the help text suitable for printing when the user asks for help.
pub fn help_text() -> (text: String)
    ensures
        text@ == HELP_TEXT@,
{
    HELP_TEXT.to_owned()
}

} // verus!
