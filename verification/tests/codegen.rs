use fuse_storage::codegen::{codegen_register, format_file, join_numbered, Hole, MAX_ARGS};

const MAX: usize = 4;

fn push_line(text: &mut String, line: String) {
    text.push_str(&line);
    text.push('\n');
}

fn expected_source() -> String {
    let mut source = String::new();

    // Write imports.
    push_line(&mut source, format!("
            #![allow(unused_parens)]
            #![allow(unused_variables)]
            #![allow(clippy::redundant_closure)]
            use crate::FunctionEval;
            use crate::Function;
            use crate::EvalContext;
            use crate::FunctionContext;
            use crate::FunctionDomain;
            use crate::FunctionRegistry;
            use crate::FunctionSignature;
            use crate::property::Domain;
            use crate::types::nullable::NullableColumn;
            use crate::types::nullable::NullableDomain;
            use crate::types::*;
            use crate::register_vectorize::*;
            use crate::values::Value;
        "
    ));

    // Write `impl FunctionRegistry`.
    push_line(&mut source, format!("impl FunctionRegistry {{"));

    // Write `register_x_arg`.
    for n_args in 1..=MAX {
        let arg_generics_bound = (0..n_args)
            .map(|n| n + 1)
            .map(|n| format!("I{n}: ArgType, "))
            .collect::<Vec<_>>().join("");
        let arg_f_closure_sig = (0..n_args)
            .map(|n| n + 1)
            .map(|n| format!("&I{n}::Domain, "))
            .collect::<Vec<_>>().join("");
        let arg_g_closure_sig = (0..n_args)
            .map(|n| n + 1)
            .map(|n| format!("I{n}::ScalarRef<'_>, "))
            .collect::<Vec<_>>().join("");
        let arg_generics = (0..n_args)
            .map(|n| n + 1)
            .map(|n| format!("I{n}, "))
            .collect::<Vec<_>>().join("");
        push_line(&mut source, format!("
                pub fn register_{n_args}_arg<{arg_generics_bound} O: ArgType, F, G>(
                    &mut self,
                    name: &str,
                    calc_domain: F,
                    func: G,
                ) where
                    F: Fn(&FunctionContext, {arg_f_closure_sig}) -> FunctionDomain<O> + 'static + Clone + Copy + Send + Sync,
                    G: Fn({arg_g_closure_sig} &mut EvalContext) -> O::Scalar + 'static + Clone + Copy + Send + Sync,
                {{
                    self.register_passthrough_nullable_{n_args}_arg::<{arg_generics} O, _, _>(
                        name,
                        calc_domain,
                        vectorize_{n_args}_arg(func),
                    )
                }}
            "
        ));
    }

    // Write `register_passthrough_nullable_x_arg`.
    for n_args in 1..=MAX {
        let arg_generics_bound = (0..n_args)
            .map(|n| n + 1)
            .map(|n| format!("I{n}: ArgType, "))
            .collect::<Vec<_>>().join("");
        let arg_f_closure_sig = (0..n_args)
            .map(|n| n + 1)
            .map(|n| format!("&I{n}::Domain, "))
            .collect::<Vec<_>>().join("");
        let arg_g_closure_sig = (0..n_args)
            .map(|n| n + 1)
            .map(|n| format!("Value<I{n}>, "))
            .collect::<Vec<_>>().join("");
        let arg_sig_type = (0..n_args)
            .map(|n| n + 1)
            .map(|n| format!("I{n}::data_type(), "))
            .collect::<Vec<_>>().join("");
        let arg_generics = (0..n_args)
            .map(|n| n + 1)
            .map(|n| format!("I{n}, "))
            .collect::<Vec<_>>().join("");
        let arg_nullable_generics = (0..n_args)
            .map(|n| n + 1)
            .map(|n| format!("NullableType<I{n}>, "))
            .collect::<Vec<_>>().join("");
        let closure_args = (0..n_args)
            .map(|n| n + 1)
            .map(|n| format!("arg{n},"))
            .collect::<Vec<_>>().join("");
        let closure_args_value = (0..n_args)
            .map(|n| n + 1)
            .map(|n| format!("&arg{n}.value"))
            .collect::<Vec<_>>().join(",");
        let some_values = (0..n_args)
            .map(|n| n + 1)
            .map(|n| format!("Some(value{n})"))
            .collect::<Vec<_>>().join(",");
        let values = (0..n_args)
            .map(|n| n + 1)
            .map(|n| format!("value{n},"))
            .collect::<Vec<_>>().join("");
        let any_arg_has_null = (0..n_args)
            .map(|n| n + 1)
            .map(|n| format!("arg{n}.has_null"))
            .collect::<Vec<_>>().join("||");

        push_line(&mut source, format!("
                pub fn register_passthrough_nullable_{n_args}_arg<{arg_generics_bound} O: ArgType, F, G>(
                    &mut self,
                    name: &str,
                    calc_domain: F,
                    func: G,
                ) where
                    F: Fn(&FunctionContext, {arg_f_closure_sig}) -> FunctionDomain<O> + 'static + Clone + Copy + Send + Sync,
                    G: for<'a> Fn({arg_g_closure_sig} &mut EvalContext) -> Value<O> + 'static + Clone + Copy + Send + Sync,
                {{
                    let has_nullable = &[{arg_sig_type} O::data_type()]
                        .iter()
                        .any(|ty| ty.as_nullable().is_some() || ty.is_null());

                    assert!(
                        !has_nullable,
                        \"Function {{}} has nullable argument or output, please use register_{n_args}_arg_core instead\",
                        name
                    );

                    self.register_{n_args}_arg_core::<{arg_generics} O, _, _>(name, calc_domain, func);

                    self.register_{n_args}_arg_core::<{arg_nullable_generics} NullableType<O>, _, _>(
                        name,
                        move |ctx, {closure_args}| {{
                            match ({closure_args_value}) {{
                                ({some_values}) => {{
                                    if let Some(domain) = calc_domain(ctx, {values}).normalize() {{
                                        FunctionDomain::Domain(NullableDomain {{
                                            has_null: {any_arg_has_null},
                                            value: Some(Box::new(domain)),
                                        }})
                                    }} else {{
                                        FunctionDomain::MayThrow
                                    }}
                                }},
                                _ => {{
                                    FunctionDomain::Domain(NullableDomain {{
                                        has_null: true,
                                        value: None,
                                    }})
                                }},
                            }}
                        }},
                        passthrough_nullable_{n_args}_arg(func),
                    );
                }}
            "
        ));
    }

    // Write `register_combine_nullable_x_arg`.
    for n_args in 1..=MAX {
        let arg_generics_bound = (0..n_args)
            .map(|n| n + 1)
            .map(|n| format!("I{n}: ArgType, "))
            .collect::<Vec<_>>().join("");
        let arg_f_closure_sig = (0..n_args)
            .map(|n| n + 1)
            .map(|n| format!("&I{n}::Domain, "))
            .collect::<Vec<_>>().join("");
        let arg_g_closure_sig = (0..n_args)
            .map(|n| n + 1)
            .map(|n| format!("Value<I{n}>, "))
            .collect::<Vec<_>>().join("");
        let arg_sig_type = (0..n_args)
            .map(|n| n + 1)
            .map(|n| format!("I{n}::data_type(), "))
            .collect::<Vec<_>>().join("");
        let arg_generics = (0..n_args)
            .map(|n| n + 1)
            .map(|n| format!("I{n}, "))
            .collect::<Vec<_>>().join("");
        let arg_nullable_generics = (0..n_args)
            .map(|n| n + 1)
            .map(|n| format!("NullableType<I{n}>, "))
            .collect::<Vec<_>>().join("");
        let closure_args = (0..n_args)
            .map(|n| n + 1)
            .map(|n| format!("arg{n},"))
            .collect::<Vec<_>>().join("");
        let closure_args_value = (0..n_args)
            .map(|n| n + 1)
            .map(|n| format!("&arg{n}.value"))
            .collect::<Vec<_>>().join(",");
        let some_values = (0..n_args)
            .map(|n| n + 1)
            .map(|n| format!("Some(value{n})"))
            .collect::<Vec<_>>().join(",");
        let values = (0..n_args)
            .map(|n| n + 1)
            .map(|n| format!("value{n},"))
            .collect::<Vec<_>>().join("");
        let any_arg_has_null = (0..n_args)
            .map(|n| n + 1)
            .map(|n| format!("arg{n}.has_null"))
            .collect::<Vec<_>>().join("||");

        push_line(&mut source, format!("
                pub fn register_combine_nullable_{n_args}_arg<{arg_generics_bound} O: ArgType, F, G>(
                    &mut self,
                    name: &str,
                    calc_domain: F,
                    func: G,
                ) where
                    F: Fn(&FunctionContext, {arg_f_closure_sig}) -> FunctionDomain<NullableType<O>> + 'static + Clone + Copy + Send + Sync,
                    G: for<'a> Fn({arg_g_closure_sig} &mut EvalContext) -> Value<NullableType<O>> + 'static + Clone + Copy + Send + Sync,
                {{
                    let has_nullable = &[{arg_sig_type} O::data_type()]
                        .iter()
                        .any(|ty| ty.as_nullable().is_some() || ty.is_null());

                    assert!(
                        !has_nullable,
                        \"Function {{}} has nullable argument or output, please use register_{n_args}_arg_core instead\",
                        name
                    );

                    self.register_{n_args}_arg_core::<{arg_generics} NullableType<O>, _, _>(
                        name,
                        calc_domain,
                        func
                    );

                    self.register_{n_args}_arg_core::<{arg_nullable_generics} NullableType<O>, _, _>(
                        name,
                        move |ctx, {closure_args}| {{
                            match ({closure_args_value}) {{
                                ({some_values}) => {{
                                    if let Some(domain) = calc_domain(ctx, {values}).normalize() {{
                                        FunctionDomain::Domain(NullableDomain {{
                                            has_null: {any_arg_has_null} || domain.has_null,
                                            value: domain.value,
                                        }})
                                    }} else {{
                                        FunctionDomain::MayThrow
                                    }}
                                }}
                                _ => {{
                                    FunctionDomain::Domain(NullableDomain {{
                                        has_null: true,
                                        value: None,
                                    }})
                                }},
                            }}
                        }},
                        combine_nullable_{n_args}_arg(func),
                    );
                }}
            "
        ));
    }

    // Write `register_x_arg_core`.
    for n_args in 0..=MAX {
        let arg_generics_bound = (0..n_args)
            .map(|n| n + 1)
            .map(|n| format!("I{n}: ArgType, "))
            .collect::<Vec<_>>().join("");
        let arg_f_closure_sig = (0..n_args)
            .map(|n| n + 1)
            .map(|n| format!("&I{n}::Domain, "))
            .collect::<Vec<_>>().join("");
        let arg_g_closure_sig = (0..n_args)
            .map(|n| n + 1)
            .map(|n| format!("Value<I{n}>, "))
            .collect::<Vec<_>>().join("");
        let arg_sig_type = (0..n_args)
            .map(|n| n + 1)
            .map(|n| format!("I{n}::data_type()"))
            .collect::<Vec<_>>().join(", ");
        let arg_generics = (0..n_args)
            .map(|n| n + 1)
            .map(|n| format!("I{n}, "))
            .collect::<Vec<_>>().join("");
        push_line(&mut source, format!("
                pub fn register_{n_args}_arg_core<{arg_generics_bound} O: ArgType, F, G>(
                    &mut self,
                    name: &str,
                    calc_domain: F,
                    func: G,
                ) where
                    F: Fn(&FunctionContext, {arg_f_closure_sig}) -> FunctionDomain<O> + 'static + Clone + Copy + Send + Sync,
                    G: for <'a> Fn({arg_g_closure_sig} &mut EvalContext) -> Value<O> + 'static + Clone + Copy + Send + Sync,
                {{
                    let func = Function {{
                        signature: FunctionSignature {{
                            name: name.to_string(),
                            args_type: vec![{arg_sig_type}],
                            return_type: O::data_type(),
                        }},
                        eval: FunctionEval::Scalar {{
                            calc_domain: Box::new(erase_calc_domain_generic_{n_args}_arg::<{arg_generics} O>(calc_domain)),
                            eval: Box::new(erase_function_generic_{n_args}_arg(func)),
                        }},
                    }};
                    self.register_function(func);
                }}
            "
        ));
    }
    push_line(&mut source, format!("}}"));

    // Write `erase_calc_domain_generic_x_arg`.
    for n_args in 0..=MAX {
        let arg_generics_bound = (0..n_args)
            .map(|n| n + 1)
            .map(|n| format!("I{n}: ArgType, "))
            .collect::<Vec<_>>().join("");
        let arg_f_closure_sig = (0..n_args)
            .map(|n| n + 1)
            .map(|n| format!("&I{n}::Domain, "))
            .collect::<Vec<_>>().join("");
        let let_args = (0..n_args)
            .map(|n| n + 1)
            .map(|n| {
                format!(
                    "let arg{n} = I{n}::try_downcast_domain(&args[{}]).unwrap();",
                    n - 1
                )
            })
            .collect::<Vec<_>>().join("");
        let func_args = (0..n_args)
            .map(|n| n + 1)
            .map(|n| format!("&arg{n},"))
            .collect::<Vec<_>>().join("");
        push_line(&mut source, format!("
                fn erase_calc_domain_generic_{n_args}_arg<{arg_generics_bound} O: ArgType>(
                    func: impl Fn(&FunctionContext, {arg_f_closure_sig}) -> FunctionDomain<O>,
                ) -> impl Fn(&FunctionContext, &[Domain]) -> FunctionDomain<AnyType> {{
                    move |ctx, args| {{
                        {let_args}
                        func(ctx, {func_args}).map(O::upcast_domain)
                    }}
                }}
            "
        ));
    }

    // Write `erase_function_generic_x_arg`.
    for n_args in 0..=MAX {
        let arg_generics_bound = (0..n_args)
            .map(|n| n + 1)
            .map(|n| format!("I{n}: ArgType, "))
            .collect::<Vec<_>>().join("");
        let arg_g_closure_sig = (0..n_args)
            .map(|n| n + 1)
            .map(|n| format!("Value<I{n}>, "))
            .collect::<Vec<_>>().join("");
        let let_args = (0..n_args)
            .map(|n| n + 1)
            .map(|n| format!("let arg{n} = args[{}].try_downcast().unwrap();", n - 1))
            .collect::<Vec<_>>().join("");
        let func_args = (0..n_args)
            .map(|n| n + 1)
            .map(|n| format!("arg{n}, "))
            .collect::<Vec<_>>().join("");
        push_line(&mut source, format!("
                fn erase_function_generic_{n_args}_arg<{arg_generics_bound} O: ArgType>(
                    func: impl for <'a> Fn({arg_g_closure_sig} &mut EvalContext) -> Value<O>,
                ) -> impl Fn(&[Value<AnyType>], &mut EvalContext) -> Value<AnyType> {{
                    move |args, ctx| {{
                        {let_args}
                        Value::upcast(func({func_args} ctx))
                    }}
                }}
            "
        ));
    }

    source
}


fn expected_file(codegen_src_path: &str, src: &str) -> String {
    let mut file = String::new();
    push_line(&mut file, format!("// Copyright 2021 Datafuse Labs
//
// Licensed under the Apache License, Version 2.0 (the \"License\");
// you may not use this file except in compliance with the License.
// You may obtain a copy of the License at
//
//     http://www.apache.org/licenses/LICENSE-2.0
//
// Unless required by applicable law or agreed to in writing, software
// distributed under the License is distributed on an \"AS IS\" BASIS,
// WITHOUT WARRANTIES OR CONDITIONS OF ANY KIND, either express or implied.
// See the License for the specific language governing permissions and
// limitations under the License.

// This code is generated by {codegen_src_path}. DO NOT EDIT.
"
    ));
    push_line(&mut file, format!("{src}"));
    file
}

#[test]
fn source_text_is_what_the_templates_give() {
    assert_eq!(MAX_ARGS, 4);
    let source = codegen_register();
    assert_eq!(source, expected_source());
    assert!(source.contains("pub fn register_4_arg<I1: ArgType, I2: ArgType, I3: ArgType, I4: ArgType,  O: ArgType, F, G>("));
    assert!(source.contains("fn erase_function_generic_0_arg< O: ArgType>("));
    assert!(source.contains("let arg1 = I1::try_downcast_domain(&args[0]).unwrap();let arg2 = I2::try_downcast_domain(&args[1]).unwrap();"));
    assert!(source.contains("has_null: arg1.has_null||arg2.has_null||arg3.has_null,"));
    assert!(source.contains("match (&arg1.value,&arg2.value) {"));
    assert!(source.ends_with("}\n            \n"));
}

#[test]
fn file_text_has_the_head_in_front() {
    let text = format_file("src/writes/register.rs", "fn f() {}");
    assert_eq!(text, expected_file("src/writes/register.rs", "fn f() {}"));
    assert!(text.starts_with("// Copyright 2021 Datafuse Labs\n"));
    assert!(text.ends_with("\nfn f() {}\n"));
}

#[test]
fn numbered_items_are_joined() {
    assert_eq!(
        join_numbered("I", ", ", Hole::Absent, "", Hole::Absent, "", "", 3),
        "I1, I2, I3, "
    );
    assert_eq!(
        join_numbered("a", ".x", Hole::Absent, "", Hole::Absent, "", "||", 2),
        "a1.x||a2.x"
    );
    assert_eq!(
        join_numbered("let a", " = I", Hole::Same, "::f(&v[", Hole::Previous, "]);", "", 2),
        "let a1 = I1::f(&v[0]);let a2 = I2::f(&v[1]);"
    );
    assert_eq!(
        join_numbered("x", "", Hole::Absent, "", Hole::Absent, "", ",", 0),
        ""
    );
    assert_eq!(
        join_numbered("v", "[", Hole::Previous, "]", Hole::Absent, "", " ", 11),
        "v1[0] v2[1] v3[2] v4[3] v5[4] v6[5] v7[6] v8[7] v9[8] v10[9] v11[10]"
    );
}
