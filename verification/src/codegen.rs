//! The source text of the functions by which scalar functions of up to four
//! arguments are registered.

use vstd::prelude::*;
use vstd::string::*;
use crate::text::{decimal, u64_to_decimal};

verus! {

/// The greatest number of arguments that a registered function takes.
pub const MAX_ARGS: u64 = 4;

/// What stands in a hole of the text of a numbered item.
#[derive(Debug, Clone, Copy, PartialEq, Eq, Structural)]
pub enum Hole {
    /// Nothing: the text ends before the hole.
    Absent,
    /// The number of the item.
    Same,
    /// The number before the number of the item.
    Previous,
}

/// The text that fills a hole of item `n`, and what follows the hole.
pub open spec fn filled(hole: Hole, n: nat, text: Seq<char>) -> Seq<char> {
    match hole {
        Hole::Absent => Seq::empty(),
        Hole::Same => decimal(n) + text,
        Hole::Previous => decimal((n - 1) as nat) + text,
    }
}

/// The text of item `n`: a text, the number, and up to two more holes with
/// the text behind each.
pub open spec fn numbered_item(
    first: Seq<char>,
    second: Seq<char>,
    hole2: Hole,
    third: Seq<char>,
    hole3: Hole,
    fourth: Seq<char>,
    n: nat,
) -> Seq<char> {
    first + decimal(n) + second + filled(hole2, n, third) + filled(hole3, n, fourth)
}

/// The texts of the items from one up to `count`, with `sep` between them.
pub open spec fn numbered_list(
    first: Seq<char>,
    second: Seq<char>,
    hole2: Hole,
    third: Seq<char>,
    hole3: Hole,
    fourth: Seq<char>,
    sep: Seq<char>,
    count: nat,
) -> Seq<char>
    decreases count,
{
    if count == 0 {
        Seq::empty()
    } else if count == 1 {
        numbered_item(first, second, hole2, third, hole3, fourth, 1)
    } else {
        numbered_list(first, second, hole2, third, hole3, fourth, sep, (count - 1) as nat) + sep
            + numbered_item(first, second, hole2, third, hole3, fourth, count)
    }
}

/// Puts what fills a hole of item `n` behind the text of `out`.
fn fill_hole(out: &mut String, hole: Hole, n: u64, text: &str)
    requires
        n >= 1,
    ensures
        final(out)@ == old(out)@ + filled(hole, n as nat, text@),
{
    match hole {
        Hole::Absent => {
            assert(out@ + Seq::<char>::empty() =~= out@);
        },
        Hole::Same => {
            out.append(u64_to_decimal(n).as_str());
            out.append(text);
            assert(out@ =~= old(out)@ + (decimal(n as nat) + text@));
        },
        Hole::Previous => {
            out.append(u64_to_decimal(n - 1).as_str());
            out.append(text);
            assert(out@ =~= old(out)@ + (decimal((n - 1) as nat) + text@));
        },
    }
}

/// Writes the items from one up to `count`, with `sep` between them.
pub fn join_numbered(
    first: &str,
    second: &str,
    hole2: Hole,
    third: &str,
    hole3: Hole,
    fourth: &str,
    sep: &str,
    count: u64,
) -> (r: String)
    ensures
        r@ == numbered_list(first@, second@, hole2, third@, hole3, fourth@, sep@, count as nat),
{
    proof {
        reveal_strlit("");
    }
    let mut r = String::from_str("");
    assert(r@ =~= Seq::<char>::empty());
    let mut n: u64 = 0;
    while n < count
        invariant
            n <= count,
            r@ == numbered_list(first@, second@, hole2, third@, hole3, fourth@, sep@, n as nat),
        decreases count - n,
    {
        let ghost before = r@;
        if n > 0 {
            r.append(sep);
        }
        let ghost with_sep = r@;
        r.append(first);
        r.append(u64_to_decimal(n + 1).as_str());
        r.append(second);
        fill_hole(&mut r, hole2, n + 1, third);
        fill_hole(&mut r, hole3, n + 1, fourth);
        proof {
            let item = numbered_item(
                first@,
                second@,
                hole2,
                third@,
                hole3,
                fourth@,
                (n + 1) as nat,
            );
            assert(r@ =~= with_sep + item);
            if n == 0 {
                assert(before + item =~= item);
            }
        }
        n += 1;
    }
    r
}

/// The text `source` with the function that registers a function of so many arguments, `n`, behind it.
pub open spec fn with_register_arg(source: Seq<char>, n: nat) -> Seq<char> {
    source
        + "
                pub fn register_"@
        + decimal(n)
        + "_arg<"@
        + numbered_list("I"@, ": ArgType, "@, Hole::Absent, ""@, Hole::Absent, ""@, ""@, n)
        + " O: ArgType, F, G>(
                    &mut self,
                    name: &str,
                    calc_domain: F,
                    func: G,
                ) where
                    F: Fn(&FunctionContext, "@
        + numbered_list("&I"@, "::Domain, "@, Hole::Absent, ""@, Hole::Absent, ""@, ""@, n)
        + ") -> FunctionDomain<O> + 'static + Clone + Copy + Send + Sync,
                    G: Fn("@
        + numbered_list("I"@, "::ScalarRef<'_>, "@, Hole::Absent, ""@, Hole::Absent, ""@, ""@, n)
        + " &mut EvalContext) -> O::Scalar + 'static + Clone + Copy + Send + Sync,
                {
                    self.register_passthrough_nullable_"@
        + decimal(n)
        + "_arg::<"@
        + numbered_list("I"@, ", "@, Hole::Absent, ""@, Hole::Absent, ""@, ""@, n)
        + " O, _, _>(
                        name,
                        calc_domain,
                        vectorize_"@
        + decimal(n)
        + "_arg(func),
                    )
                }
            "@
        + "\n"@
}

/// Writes the function that registers a function of so many arguments, `n`.
fn write_register_arg(source: &mut String, n: u64)
    ensures
        final(source)@ == with_register_arg(old(source)@, n as nat),
{
    let arg_generics_bound = join_numbered("I", ": ArgType, ", Hole::Absent, "", Hole::Absent, "", "", n);
    let arg_f_closure_sig = join_numbered("&I", "::Domain, ", Hole::Absent, "", Hole::Absent, "", "", n);
    let arg_g_closure_sig = join_numbered("I", "::ScalarRef<'_>, ", Hole::Absent, "", Hole::Absent, "", "", n);
    let arg_generics = join_numbered("I", ", ", Hole::Absent, "", Hole::Absent, "", "", n);
    let n_args = u64_to_decimal(n);
    source.append("
                pub fn register_");
    source.append(n_args.as_str());
    source.append("_arg<");
    source.append(arg_generics_bound.as_str());
    source.append(" O: ArgType, F, G>(
                    &mut self,
                    name: &str,
                    calc_domain: F,
                    func: G,
                ) where
                    F: Fn(&FunctionContext, ");
    source.append(arg_f_closure_sig.as_str());
    source.append(") -> FunctionDomain<O> + 'static + Clone + Copy + Send + Sync,
                    G: Fn(");
    source.append(arg_g_closure_sig.as_str());
    source.append(" &mut EvalContext) -> O::Scalar + 'static + Clone + Copy + Send + Sync,
                {
                    self.register_passthrough_nullable_");
    source.append(n_args.as_str());
    source.append("_arg::<");
    source.append(arg_generics.as_str());
    source.append(" O, _, _>(
                        name,
                        calc_domain,
                        vectorize_");
    source.append(n_args.as_str());
    source.append("_arg(func),
                    )
                }
            ");
    source.append("\n");
}

/// The text `source` with the functions for one argument up to `upto` arguments behind it.
pub open spec fn with_all_register_arg(source: Seq<char>, upto: nat) -> Seq<char>
    decreases upto,
{
    if upto == 0 {
        source
    } else {
        with_register_arg(with_all_register_arg(source, (upto - 1) as nat), upto)
    }
}

/// Writes the functions for one argument up to `MAX_ARGS` arguments.
fn write_all_register_arg(source: &mut String)
    ensures
        final(source)@ == with_all_register_arg(old(source)@, MAX_ARGS as nat),
{
    
    let mut n_args: u64 = 1;
    while n_args <= MAX_ARGS
        invariant
            1 <= n_args <= MAX_ARGS + 1,
            source@ == with_all_register_arg(old(source)@, (n_args - 1) as nat),
        decreases MAX_ARGS + 1 - n_args,
    {
        write_register_arg(source, n_args);
        n_args += 1;
    }
}

/// The text `source` with the function that registers a function of so many arguments and hands nulls through, `n`, behind it.
pub open spec fn with_register_passthrough_nullable(source: Seq<char>, n: nat) -> Seq<char> {
    source
        + "
                pub fn register_passthrough_nullable_"@
        + decimal(n)
        + "_arg<"@
        + numbered_list("I"@, ": ArgType, "@, Hole::Absent, ""@, Hole::Absent, ""@, ""@, n)
        + " O: ArgType, F, G>(
                    &mut self,
                    name: &str,
                    calc_domain: F,
                    func: G,
                ) where
                    F: Fn(&FunctionContext, "@
        + numbered_list("&I"@, "::Domain, "@, Hole::Absent, ""@, Hole::Absent, ""@, ""@, n)
        + ") -> FunctionDomain<O> + 'static + Clone + Copy + Send + Sync,
                    G: for<'a> Fn("@
        + numbered_list("Value<I"@, ">, "@, Hole::Absent, ""@, Hole::Absent, ""@, ""@, n)
        + " &mut EvalContext) -> Value<O> + 'static + Clone + Copy + Send + Sync,
                {
                    let has_nullable = &["@
        + numbered_list("I"@, "::data_type(), "@, Hole::Absent, ""@, Hole::Absent, ""@, ""@, n)
        + " O::data_type()]
                        .iter()
                        .any(|ty| ty.as_nullable().is_some() || ty.is_null());

                    assert!(
                        !has_nullable,
                        \"Function {} has nullable argument or output, please use register_"@
        + decimal(n)
        + "_arg_core instead\",
                        name
                    );

                    self.register_"@
        + decimal(n)
        + "_arg_core::<"@
        + numbered_list("I"@, ", "@, Hole::Absent, ""@, Hole::Absent, ""@, ""@, n)
        + " O, _, _>(name, calc_domain, func);

                    self.register_"@
        + decimal(n)
        + "_arg_core::<"@
        + numbered_list("NullableType<I"@, ">, "@, Hole::Absent, ""@, Hole::Absent, ""@, ""@, n)
        + " NullableType<O>, _, _>(
                        name,
                        move |ctx, "@
        + numbered_list("arg"@, ","@, Hole::Absent, ""@, Hole::Absent, ""@, ""@, n)
        + "| {
                            match ("@
        + numbered_list("&arg"@, ".value"@, Hole::Absent, ""@, Hole::Absent, ""@, ","@, n)
        + ") {
                                ("@
        + numbered_list("Some(value"@, ")"@, Hole::Absent, ""@, Hole::Absent, ""@, ","@, n)
        + ") => {
                                    if let Some(domain) = calc_domain(ctx, "@
        + numbered_list("value"@, ","@, Hole::Absent, ""@, Hole::Absent, ""@, ""@, n)
        + ").normalize() {
                                        FunctionDomain::Domain(NullableDomain {
                                            has_null: "@
        + numbered_list("arg"@, ".has_null"@, Hole::Absent, ""@, Hole::Absent, ""@, "||"@, n)
        + ",
                                            value: Some(Box::new(domain)),
                                        })
                                    } else {
                                        FunctionDomain::MayThrow
                                    }
                                },
                                _ => {
                                    FunctionDomain::Domain(NullableDomain {
                                        has_null: true,
                                        value: None,
                                    })
                                },
                            }
                        },
                        passthrough_nullable_"@
        + decimal(n)
        + "_arg(func),
                    );
                }
            "@
        + "\n"@
}

/// Writes the function that registers a function of so many arguments and hands nulls through, `n`.
fn write_register_passthrough_nullable(source: &mut String, n: u64)
    ensures
        final(source)@ == with_register_passthrough_nullable(old(source)@, n as nat),
{
    let arg_generics_bound = join_numbered("I", ": ArgType, ", Hole::Absent, "", Hole::Absent, "", "", n);
    let arg_f_closure_sig = join_numbered("&I", "::Domain, ", Hole::Absent, "", Hole::Absent, "", "", n);
    let arg_g_closure_sig = join_numbered("Value<I", ">, ", Hole::Absent, "", Hole::Absent, "", "", n);
    let arg_sig_type = join_numbered("I", "::data_type(), ", Hole::Absent, "", Hole::Absent, "", "", n);
    let arg_generics = join_numbered("I", ", ", Hole::Absent, "", Hole::Absent, "", "", n);
    let arg_nullable_generics = join_numbered("NullableType<I", ">, ", Hole::Absent, "", Hole::Absent, "", "", n);
    let closure_args = join_numbered("arg", ",", Hole::Absent, "", Hole::Absent, "", "", n);
    let closure_args_value = join_numbered("&arg", ".value", Hole::Absent, "", Hole::Absent, "", ",", n);
    let some_values = join_numbered("Some(value", ")", Hole::Absent, "", Hole::Absent, "", ",", n);
    let values = join_numbered("value", ",", Hole::Absent, "", Hole::Absent, "", "", n);
    let any_arg_has_null = join_numbered("arg", ".has_null", Hole::Absent, "", Hole::Absent, "", "||", n);
    let n_args = u64_to_decimal(n);
    source.append("
                pub fn register_passthrough_nullable_");
    source.append(n_args.as_str());
    source.append("_arg<");
    source.append(arg_generics_bound.as_str());
    source.append(" O: ArgType, F, G>(
                    &mut self,
                    name: &str,
                    calc_domain: F,
                    func: G,
                ) where
                    F: Fn(&FunctionContext, ");
    source.append(arg_f_closure_sig.as_str());
    source.append(") -> FunctionDomain<O> + 'static + Clone + Copy + Send + Sync,
                    G: for<'a> Fn(");
    source.append(arg_g_closure_sig.as_str());
    source.append(" &mut EvalContext) -> Value<O> + 'static + Clone + Copy + Send + Sync,
                {
                    let has_nullable = &[");
    source.append(arg_sig_type.as_str());
    source.append(" O::data_type()]
                        .iter()
                        .any(|ty| ty.as_nullable().is_some() || ty.is_null());

                    assert!(
                        !has_nullable,
                        \"Function {} has nullable argument or output, please use register_");
    source.append(n_args.as_str());
    source.append("_arg_core instead\",
                        name
                    );

                    self.register_");
    source.append(n_args.as_str());
    source.append("_arg_core::<");
    source.append(arg_generics.as_str());
    source.append(" O, _, _>(name, calc_domain, func);

                    self.register_");
    source.append(n_args.as_str());
    source.append("_arg_core::<");
    source.append(arg_nullable_generics.as_str());
    source.append(" NullableType<O>, _, _>(
                        name,
                        move |ctx, ");
    source.append(closure_args.as_str());
    source.append("| {
                            match (");
    source.append(closure_args_value.as_str());
    source.append(") {
                                (");
    source.append(some_values.as_str());
    source.append(") => {
                                    if let Some(domain) = calc_domain(ctx, ");
    source.append(values.as_str());
    source.append(").normalize() {
                                        FunctionDomain::Domain(NullableDomain {
                                            has_null: ");
    source.append(any_arg_has_null.as_str());
    source.append(",
                                            value: Some(Box::new(domain)),
                                        })
                                    } else {
                                        FunctionDomain::MayThrow
                                    }
                                },
                                _ => {
                                    FunctionDomain::Domain(NullableDomain {
                                        has_null: true,
                                        value: None,
                                    })
                                },
                            }
                        },
                        passthrough_nullable_");
    source.append(n_args.as_str());
    source.append("_arg(func),
                    );
                }
            ");
    source.append("\n");
}

/// The text `source` with the functions for one argument up to `upto` arguments behind it.
pub open spec fn with_all_register_passthrough_nullable(source: Seq<char>, upto: nat) -> Seq<char>
    decreases upto,
{
    if upto == 0 {
        source
    } else {
        with_register_passthrough_nullable(with_all_register_passthrough_nullable(source, (upto - 1) as nat), upto)
    }
}

/// Writes the functions for one argument up to `MAX_ARGS` arguments.
fn write_all_register_passthrough_nullable(source: &mut String)
    ensures
        final(source)@ == with_all_register_passthrough_nullable(old(source)@, MAX_ARGS as nat),
{
    
    let mut n_args: u64 = 1;
    while n_args <= MAX_ARGS
        invariant
            1 <= n_args <= MAX_ARGS + 1,
            source@ == with_all_register_passthrough_nullable(old(source)@, (n_args - 1) as nat),
        decreases MAX_ARGS + 1 - n_args,
    {
        write_register_passthrough_nullable(source, n_args);
        n_args += 1;
    }
}

/// The text `source` with the function that registers a function of so many arguments that may give null itself, `n`, behind it.
pub open spec fn with_register_combine_nullable(source: Seq<char>, n: nat) -> Seq<char> {
    source
        + "
                pub fn register_combine_nullable_"@
        + decimal(n)
        + "_arg<"@
        + numbered_list("I"@, ": ArgType, "@, Hole::Absent, ""@, Hole::Absent, ""@, ""@, n)
        + " O: ArgType, F, G>(
                    &mut self,
                    name: &str,
                    calc_domain: F,
                    func: G,
                ) where
                    F: Fn(&FunctionContext, "@
        + numbered_list("&I"@, "::Domain, "@, Hole::Absent, ""@, Hole::Absent, ""@, ""@, n)
        + ") -> FunctionDomain<NullableType<O>> + 'static + Clone + Copy + Send + Sync,
                    G: for<'a> Fn("@
        + numbered_list("Value<I"@, ">, "@, Hole::Absent, ""@, Hole::Absent, ""@, ""@, n)
        + " &mut EvalContext) -> Value<NullableType<O>> + 'static + Clone + Copy + Send + Sync,
                {
                    let has_nullable = &["@
        + numbered_list("I"@, "::data_type(), "@, Hole::Absent, ""@, Hole::Absent, ""@, ""@, n)
        + " O::data_type()]
                        .iter()
                        .any(|ty| ty.as_nullable().is_some() || ty.is_null());

                    assert!(
                        !has_nullable,
                        \"Function {} has nullable argument or output, please use register_"@
        + decimal(n)
        + "_arg_core instead\",
                        name
                    );

                    self.register_"@
        + decimal(n)
        + "_arg_core::<"@
        + numbered_list("I"@, ", "@, Hole::Absent, ""@, Hole::Absent, ""@, ""@, n)
        + " NullableType<O>, _, _>(
                        name,
                        calc_domain,
                        func
                    );

                    self.register_"@
        + decimal(n)
        + "_arg_core::<"@
        + numbered_list("NullableType<I"@, ">, "@, Hole::Absent, ""@, Hole::Absent, ""@, ""@, n)
        + " NullableType<O>, _, _>(
                        name,
                        move |ctx, "@
        + numbered_list("arg"@, ","@, Hole::Absent, ""@, Hole::Absent, ""@, ""@, n)
        + "| {
                            match ("@
        + numbered_list("&arg"@, ".value"@, Hole::Absent, ""@, Hole::Absent, ""@, ","@, n)
        + ") {
                                ("@
        + numbered_list("Some(value"@, ")"@, Hole::Absent, ""@, Hole::Absent, ""@, ","@, n)
        + ") => {
                                    if let Some(domain) = calc_domain(ctx, "@
        + numbered_list("value"@, ","@, Hole::Absent, ""@, Hole::Absent, ""@, ""@, n)
        + ").normalize() {
                                        FunctionDomain::Domain(NullableDomain {
                                            has_null: "@
        + numbered_list("arg"@, ".has_null"@, Hole::Absent, ""@, Hole::Absent, ""@, "||"@, n)
        + " || domain.has_null,
                                            value: domain.value,
                                        })
                                    } else {
                                        FunctionDomain::MayThrow
                                    }
                                }
                                _ => {
                                    FunctionDomain::Domain(NullableDomain {
                                        has_null: true,
                                        value: None,
                                    })
                                },
                            }
                        },
                        combine_nullable_"@
        + decimal(n)
        + "_arg(func),
                    );
                }
            "@
        + "\n"@
}

/// Writes the function that registers a function of so many arguments that may give null itself, `n`.
fn write_register_combine_nullable(source: &mut String, n: u64)
    ensures
        final(source)@ == with_register_combine_nullable(old(source)@, n as nat),
{
    let arg_generics_bound = join_numbered("I", ": ArgType, ", Hole::Absent, "", Hole::Absent, "", "", n);
    let arg_f_closure_sig = join_numbered("&I", "::Domain, ", Hole::Absent, "", Hole::Absent, "", "", n);
    let arg_g_closure_sig = join_numbered("Value<I", ">, ", Hole::Absent, "", Hole::Absent, "", "", n);
    let arg_sig_type = join_numbered("I", "::data_type(), ", Hole::Absent, "", Hole::Absent, "", "", n);
    let arg_generics = join_numbered("I", ", ", Hole::Absent, "", Hole::Absent, "", "", n);
    let arg_nullable_generics = join_numbered("NullableType<I", ">, ", Hole::Absent, "", Hole::Absent, "", "", n);
    let closure_args = join_numbered("arg", ",", Hole::Absent, "", Hole::Absent, "", "", n);
    let closure_args_value = join_numbered("&arg", ".value", Hole::Absent, "", Hole::Absent, "", ",", n);
    let some_values = join_numbered("Some(value", ")", Hole::Absent, "", Hole::Absent, "", ",", n);
    let values = join_numbered("value", ",", Hole::Absent, "", Hole::Absent, "", "", n);
    let any_arg_has_null = join_numbered("arg", ".has_null", Hole::Absent, "", Hole::Absent, "", "||", n);
    let n_args = u64_to_decimal(n);
    source.append("
                pub fn register_combine_nullable_");
    source.append(n_args.as_str());
    source.append("_arg<");
    source.append(arg_generics_bound.as_str());
    source.append(" O: ArgType, F, G>(
                    &mut self,
                    name: &str,
                    calc_domain: F,
                    func: G,
                ) where
                    F: Fn(&FunctionContext, ");
    source.append(arg_f_closure_sig.as_str());
    source.append(") -> FunctionDomain<NullableType<O>> + 'static + Clone + Copy + Send + Sync,
                    G: for<'a> Fn(");
    source.append(arg_g_closure_sig.as_str());
    source.append(" &mut EvalContext) -> Value<NullableType<O>> + 'static + Clone + Copy + Send + Sync,
                {
                    let has_nullable = &[");
    source.append(arg_sig_type.as_str());
    source.append(" O::data_type()]
                        .iter()
                        .any(|ty| ty.as_nullable().is_some() || ty.is_null());

                    assert!(
                        !has_nullable,
                        \"Function {} has nullable argument or output, please use register_");
    source.append(n_args.as_str());
    source.append("_arg_core instead\",
                        name
                    );

                    self.register_");
    source.append(n_args.as_str());
    source.append("_arg_core::<");
    source.append(arg_generics.as_str());
    source.append(" NullableType<O>, _, _>(
                        name,
                        calc_domain,
                        func
                    );

                    self.register_");
    source.append(n_args.as_str());
    source.append("_arg_core::<");
    source.append(arg_nullable_generics.as_str());
    source.append(" NullableType<O>, _, _>(
                        name,
                        move |ctx, ");
    source.append(closure_args.as_str());
    source.append("| {
                            match (");
    source.append(closure_args_value.as_str());
    source.append(") {
                                (");
    source.append(some_values.as_str());
    source.append(") => {
                                    if let Some(domain) = calc_domain(ctx, ");
    source.append(values.as_str());
    source.append(").normalize() {
                                        FunctionDomain::Domain(NullableDomain {
                                            has_null: ");
    source.append(any_arg_has_null.as_str());
    source.append(" || domain.has_null,
                                            value: domain.value,
                                        })
                                    } else {
                                        FunctionDomain::MayThrow
                                    }
                                }
                                _ => {
                                    FunctionDomain::Domain(NullableDomain {
                                        has_null: true,
                                        value: None,
                                    })
                                },
                            }
                        },
                        combine_nullable_");
    source.append(n_args.as_str());
    source.append("_arg(func),
                    );
                }
            ");
    source.append("\n");
}

/// The text `source` with the functions for one argument up to `upto` arguments behind it.
pub open spec fn with_all_register_combine_nullable(source: Seq<char>, upto: nat) -> Seq<char>
    decreases upto,
{
    if upto == 0 {
        source
    } else {
        with_register_combine_nullable(with_all_register_combine_nullable(source, (upto - 1) as nat), upto)
    }
}

/// Writes the functions for one argument up to `MAX_ARGS` arguments.
fn write_all_register_combine_nullable(source: &mut String)
    ensures
        final(source)@ == with_all_register_combine_nullable(old(source)@, MAX_ARGS as nat),
{
    
    let mut n_args: u64 = 1;
    while n_args <= MAX_ARGS
        invariant
            1 <= n_args <= MAX_ARGS + 1,
            source@ == with_all_register_combine_nullable(old(source)@, (n_args - 1) as nat),
        decreases MAX_ARGS + 1 - n_args,
    {
        write_register_combine_nullable(source, n_args);
        n_args += 1;
    }
}

/// The text `source` with the function that all registering of a function of so many arguments ends in, `n`, behind it.
pub open spec fn with_register_arg_core(source: Seq<char>, n: nat) -> Seq<char> {
    source
        + "
                pub fn register_"@
        + decimal(n)
        + "_arg_core<"@
        + numbered_list("I"@, ": ArgType, "@, Hole::Absent, ""@, Hole::Absent, ""@, ""@, n)
        + " O: ArgType, F, G>(
                    &mut self,
                    name: &str,
                    calc_domain: F,
                    func: G,
                ) where
                    F: Fn(&FunctionContext, "@
        + numbered_list("&I"@, "::Domain, "@, Hole::Absent, ""@, Hole::Absent, ""@, ""@, n)
        + ") -> FunctionDomain<O> + 'static + Clone + Copy + Send + Sync,
                    G: for <'a> Fn("@
        + numbered_list("Value<I"@, ">, "@, Hole::Absent, ""@, Hole::Absent, ""@, ""@, n)
        + " &mut EvalContext) -> Value<O> + 'static + Clone + Copy + Send + Sync,
                {
                    let func = Function {
                        signature: FunctionSignature {
                            name: name.to_string(),
                            args_type: vec!["@
        + numbered_list("I"@, "::data_type()"@, Hole::Absent, ""@, Hole::Absent, ""@, ", "@, n)
        + "],
                            return_type: O::data_type(),
                        },
                        eval: FunctionEval::Scalar {
                            calc_domain: Box::new(erase_calc_domain_generic_"@
        + decimal(n)
        + "_arg::<"@
        + numbered_list("I"@, ", "@, Hole::Absent, ""@, Hole::Absent, ""@, ""@, n)
        + " O>(calc_domain)),
                            eval: Box::new(erase_function_generic_"@
        + decimal(n)
        + "_arg(func)),
                        },
                    };
                    self.register_function(func);
                }
            "@
        + "\n"@
}

/// Writes the function that all registering of a function of so many arguments ends in, `n`.
fn write_register_arg_core(source: &mut String, n: u64)
    ensures
        final(source)@ == with_register_arg_core(old(source)@, n as nat),
{
    let arg_generics_bound = join_numbered("I", ": ArgType, ", Hole::Absent, "", Hole::Absent, "", "", n);
    let arg_f_closure_sig = join_numbered("&I", "::Domain, ", Hole::Absent, "", Hole::Absent, "", "", n);
    let arg_g_closure_sig = join_numbered("Value<I", ">, ", Hole::Absent, "", Hole::Absent, "", "", n);
    let arg_sig_type = join_numbered("I", "::data_type()", Hole::Absent, "", Hole::Absent, "", ", ", n);
    let arg_generics = join_numbered("I", ", ", Hole::Absent, "", Hole::Absent, "", "", n);
    let n_args = u64_to_decimal(n);
    source.append("
                pub fn register_");
    source.append(n_args.as_str());
    source.append("_arg_core<");
    source.append(arg_generics_bound.as_str());
    source.append(" O: ArgType, F, G>(
                    &mut self,
                    name: &str,
                    calc_domain: F,
                    func: G,
                ) where
                    F: Fn(&FunctionContext, ");
    source.append(arg_f_closure_sig.as_str());
    source.append(") -> FunctionDomain<O> + 'static + Clone + Copy + Send + Sync,
                    G: for <'a> Fn(");
    source.append(arg_g_closure_sig.as_str());
    source.append(" &mut EvalContext) -> Value<O> + 'static + Clone + Copy + Send + Sync,
                {
                    let func = Function {
                        signature: FunctionSignature {
                            name: name.to_string(),
                            args_type: vec![");
    source.append(arg_sig_type.as_str());
    source.append("],
                            return_type: O::data_type(),
                        },
                        eval: FunctionEval::Scalar {
                            calc_domain: Box::new(erase_calc_domain_generic_");
    source.append(n_args.as_str());
    source.append("_arg::<");
    source.append(arg_generics.as_str());
    source.append(" O>(calc_domain)),
                            eval: Box::new(erase_function_generic_");
    source.append(n_args.as_str());
    source.append("_arg(func)),
                        },
                    };
                    self.register_function(func);
                }
            ");
    source.append("\n");
}

/// The text `source` with the functions for no argument and for one argument up to `upto` arguments behind it.
pub open spec fn with_all_register_arg_core(source: Seq<char>, upto: nat) -> Seq<char>
    decreases upto,
{
    if upto == 0 {
        with_register_arg_core(source, 0)
    } else {
        with_register_arg_core(with_all_register_arg_core(source, (upto - 1) as nat), upto)
    }
}

/// Writes the functions for no argument and for one argument up to `MAX_ARGS` arguments.
fn write_all_register_arg_core(source: &mut String)
    ensures
        final(source)@ == with_all_register_arg_core(old(source)@, MAX_ARGS as nat),
{
    write_register_arg_core(source, 0);
    let mut n_args: u64 = 1;
    while n_args <= MAX_ARGS
        invariant
            1 <= n_args <= MAX_ARGS + 1,
            source@ == with_all_register_arg_core(old(source)@, (n_args - 1) as nat),
        decreases MAX_ARGS + 1 - n_args,
    {
        write_register_arg_core(source, n_args);
        n_args += 1;
    }
}

/// The text `source` with the function that makes the domain of a function of so many arguments one of any type, `n`, behind it.
pub open spec fn with_erase_calc_domain(source: Seq<char>, n: nat) -> Seq<char> {
    source
        + "
                fn erase_calc_domain_generic_"@
        + decimal(n)
        + "_arg<"@
        + numbered_list("I"@, ": ArgType, "@, Hole::Absent, ""@, Hole::Absent, ""@, ""@, n)
        + " O: ArgType>(
                    func: impl Fn(&FunctionContext, "@
        + numbered_list("&I"@, "::Domain, "@, Hole::Absent, ""@, Hole::Absent, ""@, ""@, n)
        + ") -> FunctionDomain<O>,
                ) -> impl Fn(&FunctionContext, &[Domain]) -> FunctionDomain<AnyType> {
                    move |ctx, args| {
                        "@
        + numbered_list("let arg"@, " = I"@, Hole::Same, "::try_downcast_domain(&args["@, Hole::Previous, "]).unwrap();"@, ""@, n)
        + "
                        func(ctx, "@
        + numbered_list("&arg"@, ","@, Hole::Absent, ""@, Hole::Absent, ""@, ""@, n)
        + ").map(O::upcast_domain)
                    }
                }
            "@
        + "\n"@
}

/// Writes the function that makes the domain of a function of so many arguments one of any type, `n`.
fn write_erase_calc_domain(source: &mut String, n: u64)
    ensures
        final(source)@ == with_erase_calc_domain(old(source)@, n as nat),
{
    let arg_generics_bound = join_numbered("I", ": ArgType, ", Hole::Absent, "", Hole::Absent, "", "", n);
    let arg_f_closure_sig = join_numbered("&I", "::Domain, ", Hole::Absent, "", Hole::Absent, "", "", n);
    let let_args = join_numbered("let arg", " = I", Hole::Same, "::try_downcast_domain(&args[", Hole::Previous, "]).unwrap();", "", n);
    let func_args = join_numbered("&arg", ",", Hole::Absent, "", Hole::Absent, "", "", n);
    let n_args = u64_to_decimal(n);
    source.append("
                fn erase_calc_domain_generic_");
    source.append(n_args.as_str());
    source.append("_arg<");
    source.append(arg_generics_bound.as_str());
    source.append(" O: ArgType>(
                    func: impl Fn(&FunctionContext, ");
    source.append(arg_f_closure_sig.as_str());
    source.append(") -> FunctionDomain<O>,
                ) -> impl Fn(&FunctionContext, &[Domain]) -> FunctionDomain<AnyType> {
                    move |ctx, args| {
                        ");
    source.append(let_args.as_str());
    source.append("
                        func(ctx, ");
    source.append(func_args.as_str());
    source.append(").map(O::upcast_domain)
                    }
                }
            ");
    source.append("\n");
}

/// The text `source` with the functions for no argument and for one argument up to `upto` arguments behind it.
pub open spec fn with_all_erase_calc_domain(source: Seq<char>, upto: nat) -> Seq<char>
    decreases upto,
{
    if upto == 0 {
        with_erase_calc_domain(source, 0)
    } else {
        with_erase_calc_domain(with_all_erase_calc_domain(source, (upto - 1) as nat), upto)
    }
}

/// Writes the functions for no argument and for one argument up to `MAX_ARGS` arguments.
fn write_all_erase_calc_domain(source: &mut String)
    ensures
        final(source)@ == with_all_erase_calc_domain(old(source)@, MAX_ARGS as nat),
{
    write_erase_calc_domain(source, 0);
    let mut n_args: u64 = 1;
    while n_args <= MAX_ARGS
        invariant
            1 <= n_args <= MAX_ARGS + 1,
            source@ == with_all_erase_calc_domain(old(source)@, (n_args - 1) as nat),
        decreases MAX_ARGS + 1 - n_args,
    {
        write_erase_calc_domain(source, n_args);
        n_args += 1;
    }
}

/// The text `source` with the function that makes a function of so many arguments one of any type, `n`, behind it.
pub open spec fn with_erase_function(source: Seq<char>, n: nat) -> Seq<char> {
    source
        + "
                fn erase_function_generic_"@
        + decimal(n)
        + "_arg<"@
        + numbered_list("I"@, ": ArgType, "@, Hole::Absent, ""@, Hole::Absent, ""@, ""@, n)
        + " O: ArgType>(
                    func: impl for <'a> Fn("@
        + numbered_list("Value<I"@, ">, "@, Hole::Absent, ""@, Hole::Absent, ""@, ""@, n)
        + " &mut EvalContext) -> Value<O>,
                ) -> impl Fn(&[Value<AnyType>], &mut EvalContext) -> Value<AnyType> {
                    move |args, ctx| {
                        "@
        + numbered_list("let arg"@, " = args["@, Hole::Previous, "].try_downcast().unwrap();"@, Hole::Absent, ""@, ""@, n)
        + "
                        Value::upcast(func("@
        + numbered_list("arg"@, ", "@, Hole::Absent, ""@, Hole::Absent, ""@, ""@, n)
        + " ctx))
                    }
                }
            "@
        + "\n"@
}

/// Writes the function that makes a function of so many arguments one of any type, `n`.
fn write_erase_function(source: &mut String, n: u64)
    ensures
        final(source)@ == with_erase_function(old(source)@, n as nat),
{
    let arg_generics_bound = join_numbered("I", ": ArgType, ", Hole::Absent, "", Hole::Absent, "", "", n);
    let arg_g_closure_sig = join_numbered("Value<I", ">, ", Hole::Absent, "", Hole::Absent, "", "", n);
    let let_args = join_numbered("let arg", " = args[", Hole::Previous, "].try_downcast().unwrap();", Hole::Absent, "", "", n);
    let func_args = join_numbered("arg", ", ", Hole::Absent, "", Hole::Absent, "", "", n);
    let n_args = u64_to_decimal(n);
    source.append("
                fn erase_function_generic_");
    source.append(n_args.as_str());
    source.append("_arg<");
    source.append(arg_generics_bound.as_str());
    source.append(" O: ArgType>(
                    func: impl for <'a> Fn(");
    source.append(arg_g_closure_sig.as_str());
    source.append(" &mut EvalContext) -> Value<O>,
                ) -> impl Fn(&[Value<AnyType>], &mut EvalContext) -> Value<AnyType> {
                    move |args, ctx| {
                        ");
    source.append(let_args.as_str());
    source.append("
                        Value::upcast(func(");
    source.append(func_args.as_str());
    source.append(" ctx))
                    }
                }
            ");
    source.append("\n");
}

/// The text `source` with the functions for no argument and for one argument up to `upto` arguments behind it.
pub open spec fn with_all_erase_function(source: Seq<char>, upto: nat) -> Seq<char>
    decreases upto,
{
    if upto == 0 {
        with_erase_function(source, 0)
    } else {
        with_erase_function(with_all_erase_function(source, (upto - 1) as nat), upto)
    }
}

/// Writes the functions for no argument and for one argument up to `MAX_ARGS` arguments.
fn write_all_erase_function(source: &mut String)
    ensures
        final(source)@ == with_all_erase_function(old(source)@, MAX_ARGS as nat),
{
    write_erase_function(source, 0);
    let mut n_args: u64 = 1;
    while n_args <= MAX_ARGS
        invariant
            1 <= n_args <= MAX_ARGS + 1,
            source@ == with_all_erase_function(old(source)@, (n_args - 1) as nat),
        decreases MAX_ARGS + 1 - n_args,
    {
        write_erase_function(source, n_args);
        n_args += 1;
    }
}

/// What the source text begins with: what it allows and what it uses.
pub open spec fn imports() -> Seq<char> {
    "
            #![allow(unused_parens)]
            #![allow(unused_variables)]
            #![allow(clippy::redundant_closure)]
            use crate::FunctionEval;
            use crate::Function;
            use crate::EvalContext;
            use crate::FunctionContext;
            use crate::FunctionDomain;
            use crate::FunctionRegistry;
            use crate::FunctionSignature;
            use crate::property::Domain;
            use crate::types::nullable::NullableColumn;
            use crate::types::nullable::NullableDomain;
            use crate::types::*;
            use crate::register_vectorize::*;
            use crate::values::Value;
        "@
}

/// The whole source text: the imports, the functions of the registry in
/// their block, and the functions that make functions of any type.
pub open spec fn register_source() -> Seq<char> {
    with_all_erase_function(
        with_all_erase_calc_domain(
            with_all_register_arg_core(
                with_all_register_combine_nullable(
                    with_all_register_passthrough_nullable(
                        with_all_register_arg(
                            imports() + "\n"@ + "impl FunctionRegistry {"@ + "\n"@,
                            MAX_ARGS as nat,
                        ),
                        MAX_ARGS as nat,
                    ),
                    MAX_ARGS as nat,
                ),
                MAX_ARGS as nat,
            ) + "}"@ + "\n"@,
            MAX_ARGS as nat,
        ),
        MAX_ARGS as nat,
    )
}

/// Writes the source text of the functions by which scalar functions are
/// registered.
pub fn codegen_register() -> (source: String)
    ensures
        source@ == register_source(),
{
    // Write imports.
    let mut source = String::from_str(
        "
            #![allow(unused_parens)]
            #![allow(unused_variables)]
            #![allow(clippy::redundant_closure)]
            use crate::FunctionEval;
            use crate::Function;
            use crate::EvalContext;
            use crate::FunctionContext;
            use crate::FunctionDomain;
            use crate::FunctionRegistry;
            use crate::FunctionSignature;
            use crate::property::Domain;
            use crate::types::nullable::NullableColumn;
            use crate::types::nullable::NullableDomain;
            use crate::types::*;
            use crate::register_vectorize::*;
            use crate::values::Value;
        ",
    );
    source.append("\n");
    // Write `impl FunctionRegistry`.
    source.append("impl FunctionRegistry {");
    source.append("\n");
    // Write `register_x_arg`.
    write_all_register_arg(&mut source);
    // Write `register_passthrough_nullable_x_arg`.
    write_all_register_passthrough_nullable(&mut source);
    // Write `register_combine_nullable_x_arg`.
    write_all_register_combine_nullable(&mut source);
    // Write `register_x_arg_core`.
    write_all_register_arg_core(&mut source);
    source.append("}");
    source.append("\n");
    // Write `erase_calc_domain_generic_x_arg`.
    write_all_erase_calc_domain(&mut source);
    // Write `erase_function_generic_x_arg`.
    write_all_erase_function(&mut source);
    source
}

/// The text of the file that holds a source text: the notice of the
/// licence, a line that names the file of the code that wrote it, and the
/// source text.
pub open spec fn file_text(codegen_src_path: Seq<char>, src: Seq<char>) -> Seq<char> {
    "// Copyright 2021 Datafuse Labs
//
// Licensed under the Apache License, Version 2.0 (the \"License\");
// you may not use this file except in compliance with the License.
// You may obtain a copy of the License at
//
//     http://www.apache.org/licenses/LICENSE-2.0
//
// Unless required by applicable law or agreed to in writing, software
// distributed under the License is distributed on an \"AS IS\" BASIS,
// WITHOUT WARRANTIES OR CONDITIONS OF ANY KIND, either express or implied.
// See the License for the specific language governing permissions and
// limitations under the License.

// This code is generated by "@
        + codegen_src_path
        + ". DO NOT EDIT.
"@
        + "\n"@
        + src
        + "\n"@
}

/// Writes the text of the file that holds the source text `src`. The text
/// is then saved and formatted by the caller.
pub fn format_file(codegen_src_path: &str, src: &str) -> (file: String)
    ensures
        file@ == file_text(codegen_src_path@, src@),
{
    // Write the head.
    let mut file = String::from_str("// Copyright 2021 Datafuse Labs
//
// Licensed under the Apache License, Version 2.0 (the \"License\");
// you may not use this file except in compliance with the License.
// You may obtain a copy of the License at
//
//     http://www.apache.org/licenses/LICENSE-2.0
//
// Unless required by applicable law or agreed to in writing, software
// distributed under the License is distributed on an \"AS IS\" BASIS,
// WITHOUT WARRANTIES OR CONDITIONS OF ANY KIND, either express or implied.
// See the License for the specific language governing permissions and
// limitations under the License.

// This code is generated by ");
    file.append(codegen_src_path);
    file.append(". DO NOT EDIT.
");
    file.append("\n");
    file.append(src);
    file.append("\n");
    file
}

} // verus!
