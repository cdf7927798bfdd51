# rstest (verified core)

The logic behind three attribute macros for fixture based tests:

- `rstest` renders a test function that builds each argument from the
  fixture of the same name and calls the user's function;
- `fixture` renders a fixture as a struct, its constructors and a function
  without arguments that resolves the fixture's own arguments;
- `rstest_parametrize` renders one test function per case, named
  `case_<n>[_<description>]` with `n` zero-padded to a common width, or
  compile errors for parameters the function does not take and for cases whose
  values do not match the parameters.

`src/` is verified with Verus. Every rendering function states the exact token
text it produces; the laws (distinct and equally wide case names, resolution of
case values, trace selection) are proof functions beside the code.

`src/input.rs` reads the annotated function from the macro's input tokens
with `syn` and renders it; `app/` is the token-stream edge that hands those
tokens over and turns the rendered text back into a `proc_macro2::TokenStream`.
