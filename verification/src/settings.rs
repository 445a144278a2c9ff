//! Compiler settings, chosen by the surrounding command-line driver.

use vstd::prelude::*;

verus! {

/// Options that steer a compilation run.
#[derive(Debug, Clone)]
pub struct Settings {
    pub color: bool,
    pub optimize: bool,
    pub heavy_optimization: bool,
    pub output_code_logs: bool,
    pub print_debug_logs: bool,
    pub output_diagnostics: bool,
    pub base_path: Option<String>,
    pub output_directory: Option<String>,
    pub ignore_errors: bool,
}

impl Default for Settings {
    /// The defaults of an interactive run: colored output, diagnostics on,
    /// no optimization, no project path.
    fn default() -> (r: Self)
        ensures
            r.color && !r.optimize && !r.heavy_optimization && r.output_code_logs
                && !r.print_debug_logs && r.output_diagnostics && !r.ignore_errors,
            r.base_path is None,
            r.output_directory is None,
    {
        Self {
            color: true,
            optimize: false,
            heavy_optimization: false,
            output_code_logs: true,
            print_debug_logs: false,
            output_diagnostics: true,
            base_path: None,
            output_directory: None,
            ignore_errors: false,
        }
    }
}

} // verus!
