//! The registry of scalar functions: what is known of each function, and
//! the functions that are registered together.

use vstd::prelude::*;
use vstd::string::*;
use crate::text::str_eq;

verus! {

/// The functions that the registry can make.
#[derive(Debug, Clone, Copy, PartialEq, Eq, Structural)]
pub enum FunctionKind {
    LogicNot,
    Pi,
    Abs,
    Sin,
    Cos,
    Tan,
    Cot,
    Crc32,
    Degrees,
    Radians,
    Log,
    Log10,
    Log2,
    Ln,
    Ceil,
    Floor,
}

/// What is known of a function beyond how it is made.
#[derive(Debug, Clone, PartialEq, Eq)]
pub struct FunctionFeatures {
    /// Whether equal arguments always give equal results.
    pub is_deterministic: bool,
    /// The name of the function that gives the opposite result, if there is
    /// one. An empty name says that the function is dropped from an
    /// expression to negate it.
    pub negative_function_name: Option<String>,
    /// Whether the function gives true or false.
    pub is_bool_func: bool,
}

/// The features as plain values.
pub struct FunctionFeaturesView {
    pub is_deterministic: bool,
    pub negative_function_name: Option<Seq<char>>,
    pub is_bool_func: bool,
}

impl View for FunctionFeatures {
    type V = FunctionFeaturesView;

    open spec fn view(&self) -> FunctionFeaturesView {
        FunctionFeaturesView {
            is_deterministic: self.is_deterministic,
            negative_function_name: match self.negative_function_name {
                Some(name) => Some(name@),
                None => None,
            },
            is_bool_func: self.is_bool_func,
        }
    }
}

impl Default for FunctionFeatures {
    fn default() -> (r: FunctionFeatures)
        ensures
            r@ == (FunctionFeaturesView {
                is_deterministic: false,
                negative_function_name: None,
                is_bool_func: false,
            }),
    {
        FunctionFeatures { is_deterministic: false, negative_function_name: None, is_bool_func: false }
    }
}

impl FunctionFeatures {
    /// The features of a function whose result depends on its arguments
    /// alone.
    pub fn deterministic(self) -> (r: FunctionFeatures)
        ensures
            r@ == (FunctionFeaturesView { is_deterministic: true, ..self@ }),
    {
        let mut r = self;
        r.is_deterministic = true;
        r
    }

    /// The features of a function whose opposite is the function
    /// `negative_name`.
    pub fn negative_function(self, negative_name: &str) -> (r: FunctionFeatures)
        ensures
            r@ == (FunctionFeaturesView {
                negative_function_name: Some(negative_name@),
                ..self@
            }),
    {
        let mut r = self;
        r.negative_function_name = Some(String::from_str(negative_name));
        r
    }

    /// The features of a function that gives true or false.
    pub fn bool_function(self) -> (r: FunctionFeatures)
        ensures
            r@ == (FunctionFeaturesView { is_bool_func: true, ..self@ }),
    {
        let mut r = self;
        r.is_bool_func = true;
        r
    }
}

/// What the registry holds of a function: which function is made, and its
/// features.
#[derive(Debug, Clone, PartialEq, Eq)]
pub struct FunctionDescription {
    pub features: FunctionFeatures,
    pub function_creator: FunctionKind,
}

/// A description as plain values.
pub struct FunctionDescriptionView {
    pub features: FunctionFeaturesView,
    pub function_creator: FunctionKind,
}

impl View for FunctionDescription {
    type V = FunctionDescriptionView;

    open spec fn view(&self) -> FunctionDescriptionView {
        FunctionDescriptionView {
            features: self.features@,
            function_creator: self.function_creator,
        }
    }
}

impl FunctionDescription {
    /// The description of the function `creator`, with no features yet.
    pub fn creator(creator: FunctionKind) -> (r: FunctionDescription)
        ensures
            r@ == (FunctionDescriptionView {
                features: FunctionFeaturesView {
                    is_deterministic: false,
                    negative_function_name: None,
                    is_bool_func: false,
                },
                function_creator: creator,
            }),
    {
        FunctionDescription { function_creator: creator, features: FunctionFeatures::default() }
    }

    /// The description with the features `features`.
    pub fn features(self, features: FunctionFeatures) -> (r: FunctionDescription)
        ensures
            r@ == (FunctionDescriptionView { features: features@, ..self@ }),
    {
        let mut r = self;
        r.features = features;
        r
    }
}

/// The description of a function that is deterministic and no more.
pub open spec fn plain_description(kind: FunctionKind) -> FunctionDescriptionView {
    FunctionDescriptionView {
        features: FunctionFeaturesView {
            is_deterministic: true,
            negative_function_name: None,
            is_bool_func: false,
        },
        function_creator: kind,
    }
}

/// The description of a function that is deterministic and no more.
fn plain(kind: FunctionKind) -> (r: FunctionDescription)
    ensures
        r@ == plain_description(kind),
{
    FunctionDescription::creator(kind).features(FunctionFeatures::default().deterministic())
}

/// The registry of functions, by name. Registering a name again replaces
/// what was registered under it.
pub struct FunctionFactory {
    descs: Vec<(String, FunctionDescription)>,
}

/// The map that a list of registrations stands for.
pub open spec fn registrations_map(s: Seq<(String, FunctionDescription)>) -> Map<
    Seq<char>,
    FunctionDescriptionView,
>
    decreases s.len(),
{
    if s.len() == 0 {
        Map::empty()
    } else {
        registrations_map(s.drop_last()).insert(s.last().0@, s.last().1@)
    }
}

/// A name that no registration from `from` on holds is looked up in the
/// registrations before `from`.
proof fn lemma_registration_lookup(s: Seq<(String, FunctionDescription)>, key: Seq<char>, from: int)
    requires
        0 <= from <= s.len(),
        forall|j: int| from <= j < s.len() ==> (#[trigger] s[j]).0@ != key,
    ensures
        from == 0 ==> !registrations_map(s).contains_key(key),
        from > 0 && s[from - 1].0@ == key ==> registrations_map(s).contains_key(key)
            && registrations_map(s)[key] == s[from - 1].1@,
    decreases s.len(),
{
    if s.len() == 0 {
    } else if from == s.len() {
    } else {
        let t = s.drop_last();
        lemma_registration_lookup(t, key, from);
    }
}

impl View for FunctionFactory {
    type V = Map<Seq<char>, FunctionDescriptionView>;

    closed spec fn view(&self) -> Map<Seq<char>, FunctionDescriptionView> {
        registrations_map(self.descs@)
    }
}

impl FunctionFactory {
    /// A registry without functions.
    pub fn create() -> (r: FunctionFactory)
        ensures
            r@ == Map::<Seq<char>, FunctionDescriptionView>::empty(),
    {
        FunctionFactory { descs: Vec::new() }
    }

    /// Registers the function `desc` under the name `name`.
    pub fn register(&mut self, name: &str, desc: FunctionDescription)
        ensures
            final(self)@ == old(self)@.insert(name@, desc@),
    {
        let ghost before = self.descs@;
        self.descs.push((String::from_str(name), desc));
        proof {
            assert(self.descs@.drop_last() =~= before);
        }
    }

    /// What is registered under the name `name`, if anything is.
    pub fn get(&self, name: &str) -> (r: Option<&FunctionDescription>)
        ensures
            match r {
                Some(desc) => self@.contains_key(name@) && self@[name@] == desc@,
                None => !self@.contains_key(name@),
            },
    {
        let mut i: usize = self.descs.len();
        while i > 0
            invariant
                i <= self.descs.len(),
                forall|j: int| i <= j < self.descs.len() ==> (#[trigger] self.descs@[j]).0@ != name@,
            decreases i,
        {
            i -= 1;
            if str_eq(self.descs[i].0.as_str(), name) {
                proof {
                    lemma_registration_lookup(self.descs@, name@, i + 1);
                }
                return Some(&self.descs[i].1);
            }
        }
        proof {
            lemma_registration_lookup(self.descs@, name@, 0);
        }
        None
    }
}

/// The function that negates a truth value.
pub struct LogicNotFunction;

impl LogicNotFunction {
    /// The function that is made.
    pub fn try_create_func(_display_name: &str) -> (r: FunctionKind)
        ensures
            r == FunctionKind::LogicNot,
    {
        FunctionKind::LogicNot
    }

    /// The description of the function: deterministic, true or false, and
    /// dropped from an expression to negate it.
    pub fn desc() -> (r: FunctionDescription)
        ensures
            r@ == (FunctionDescriptionView {
                features: FunctionFeaturesView {
                    is_deterministic: true,
                    negative_function_name: Some(Seq::<char>::empty()),
                    is_bool_func: true,
                },
                function_creator: FunctionKind::LogicNot,
            }),
    {
        proof {
            reveal_strlit("");
        }
        let r = FunctionDescription::creator(Self::try_create_func("")).features(
            // We should need remove expression if negative function is empty
            FunctionFeatures::default().deterministic().negative_function("").bool_function(),
        );
        assert(""@ =~= Seq::<char>::empty());
        r
    }
}

/// The functions of mathematics.
pub struct MathsFunction;

/// The registry `before` with the functions of mathematics registered.
pub open spec fn with_maths(
    before: Map<Seq<char>, FunctionDescriptionView>,
) -> Map<Seq<char>, FunctionDescriptionView> {
    before.insert("pi"@, plain_description(FunctionKind::Pi)).insert(
        "abs"@,
        plain_description(FunctionKind::Abs),
    ).insert("sin"@, plain_description(FunctionKind::Sin)).insert(
        "cos"@,
        plain_description(FunctionKind::Cos),
    ).insert("tan"@, plain_description(FunctionKind::Tan)).insert(
        "cot"@,
        plain_description(FunctionKind::Cot),
    ).insert("crc32"@, plain_description(FunctionKind::Crc32)).insert(
        "degrees"@,
        plain_description(FunctionKind::Degrees),
    ).insert("radians"@, plain_description(FunctionKind::Radians)).insert(
        "log"@,
        plain_description(FunctionKind::Log),
    ).insert("log10"@, plain_description(FunctionKind::Log10)).insert(
        "log2"@,
        plain_description(FunctionKind::Log2),
    ).insert("ln"@, plain_description(FunctionKind::Ln)).insert(
        "ceil"@,
        plain_description(FunctionKind::Ceil),
    ).insert("ceiling"@, plain_description(FunctionKind::Ceil)).insert(
        "floor"@,
        plain_description(FunctionKind::Floor),
    )
}

impl MathsFunction {
    /// Registers the functions of mathematics, each under its name; the
    /// ceiling under two names.
    pub fn register(factory: &mut FunctionFactory)
        ensures
            final(factory)@ == with_maths(old(factory)@),
    {
        factory.register("pi", plain(FunctionKind::Pi));
        factory.register("abs", plain(FunctionKind::Abs));
        factory.register("sin", plain(FunctionKind::Sin));
        factory.register("cos", plain(FunctionKind::Cos));
        factory.register("tan", plain(FunctionKind::Tan));
        factory.register("cot", plain(FunctionKind::Cot));
        factory.register("crc32", plain(FunctionKind::Crc32));
        factory.register("degrees", plain(FunctionKind::Degrees));
        factory.register("radians", plain(FunctionKind::Radians));
        factory.register("log", plain(FunctionKind::Log));
        factory.register("log10", plain(FunctionKind::Log10));
        factory.register("log2", plain(FunctionKind::Log2));
        factory.register("ln", plain(FunctionKind::Ln));
        factory.register("ceil", plain(FunctionKind::Ceil));
        factory.register("ceiling", plain(FunctionKind::Ceil));
        factory.register("floor", plain(FunctionKind::Floor));
    }
}


/// The types of whole numbers.
#[derive(Debug, Clone, Copy, PartialEq, Eq, Structural)]
pub enum NumberDataType {
    UInt8,
    UInt16,
    UInt32,
    UInt64,
    Int8,
    Int16,
    Int32,
    Int64,
}

/// The types of whole numbers, in the order in which they are gone
/// through.
pub open spec fn all_integer_types() -> Seq<NumberDataType> {
    seq![
        NumberDataType::UInt8,
        NumberDataType::UInt16,
        NumberDataType::UInt32,
        NumberDataType::UInt64,
        NumberDataType::Int8,
        NumberDataType::Int16,
        NumberDataType::Int32,
        NumberDataType::Int64,
    ]
}

/// The type of whole numbers at place `i`.
pub fn integer_type(i: usize) -> (r: NumberDataType)
    requires
        i < 8,
    ensures
        r == all_integer_types()[i as int],
{
    if i == 0 {
        NumberDataType::UInt8
    } else if i == 1 {
        NumberDataType::UInt16
    } else if i == 2 {
        NumberDataType::UInt32
    } else if i == 3 {
        NumberDataType::UInt64
    } else if i == 4 {
        NumberDataType::Int8
    } else if i == 5 {
        NumberDataType::Int16
    } else if i == 6 {
        NumberDataType::Int32
    } else {
        NumberDataType::Int64
    }
}

/// Lists the pairs of types of whole numbers for which the basic
/// arithmetic is registered: every type with every type, the left type
/// changing last.
pub fn register_integer_basic_arithmetic(registry: &mut Vec<(NumberDataType, NumberDataType)>)
    ensures
        final(registry)@.len() == old(registry)@.len() + 64,
        final(registry)@.subrange(0, old(registry)@.len() as int) == old(registry)@,
        forall|l: int, r: int|
            0 <= l < 8 && 0 <= r < 8 ==> #[trigger] final(registry)@[old(registry)@.len() + l * 8
                + r] == (all_integer_types()[l], all_integer_types()[r]),
{
    let ghost before = registry@;
    let mut left: usize = 0;
    while left < 8
        invariant
            left <= 8,
            registry@.len() == before.len() + left * 8,
            registry@.subrange(0, before.len() as int) == before,
            forall|l: int, r: int|
                0 <= l < left && 0 <= r < 8 ==> #[trigger] registry@[before.len() + l * 8 + r] == (
                    all_integer_types()[l],
                    all_integer_types()[r],
                ),
        decreases 8 - left,
    {
        let mut right: usize = 0;
        while right < 8
            invariant
                left < 8,
                right <= 8,
                registry@.len() == before.len() + left * 8 + right,
                registry@.subrange(0, before.len() as int) == before,
                forall|l: int, r: int|
                    0 <= l < left && 0 <= r < 8 ==> #[trigger] registry@[before.len() + l * 8 + r]
                        == (all_integer_types()[l], all_integer_types()[r]),
                forall|r: int|
                    0 <= r < right ==> #[trigger] registry@[before.len() + left * 8 + r] == (
                        all_integer_types()[left as int],
                        all_integer_types()[r],
                    ),
            decreases 8 - right,
        {
            let ghost prior = registry@;
            registry.push((integer_type(left), integer_type(right)));
            proof {
                assert(registry@.subrange(0, before.len() as int) =~= prior.subrange(
                    0,
                    before.len() as int,
                ));
                assert forall|r: int| 0 <= r < right + 1 implies #[trigger] registry@[before.len()
                    + left * 8 + r] == (
                    all_integer_types()[left as int],
                    all_integer_types()[r],
                ) by {
                    if r < right {
                        assert(registry@[before.len() + left * 8 + r] == prior[before.len() + left
                            * 8 + r]);
                    }
                }
            }
            right += 1;
        }
        left += 1;
    }
}

} // verus!
