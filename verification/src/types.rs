//! The semantic types of the language, and the integer types with their ranges.

use vstd::prelude::*;
use crate::symbols::ModuleId;
use crate::comptime::FunctionTemplateId;

verus! {

broadcast use vstd::std_specs::vec::axiom_vec_index_decreases;

/// What the compiler knows of the machine it compiles for.
#[derive(Debug, Clone, Copy, PartialEq, Eq, Structural)]
pub struct TargetInfo {
    pub pointer_bit_width: u32,
}

impl TargetInfo {
    /// The machine the compiler itself runs on.
    pub fn native() -> (target: TargetInfo)
        ensures
            target.pointer_bit_width == usize::BITS,
    {
        TargetInfo { pointer_bit_width: usize::BITS }
    }
}

/// A type of the language.
#[derive(Debug)]
pub enum Type {
    Integer(IntegerType),
    Module(ModuleId),
    Bool,
    Str,
    Unit,
    FixedArray {
        size: usize,
        base_type: Box<Type>,
    },
    Function {
        parameters: Vec<Type>,
        return_type: Box<Type>,
    },
    FunctionTemplate(FunctionTemplateId),
    Error,
    Unknown,
    Type,
}

/// Two types are the same type: the same variant, with the same types inside.
pub open spec fn type_eq(a: Type, b: Type) -> bool
    decreases a,
{
    match a {
        Type::Integer(x) => b == Type::Integer(x),
        Type::Module(x) => b == Type::Module(x),
        Type::Bool => b is Bool,
        Type::Str => b is Str,
        Type::Unit => b is Unit,
        Type::FixedArray { size: s1, base_type: t1 } => match b {
            Type::FixedArray { size: s2, base_type: t2 } => s1 == s2 && type_eq(*t1, *t2),
            _ => false,
        },
        Type::Function { parameters: p1, return_type: r1 } => match b {
            Type::Function { parameters: p2, return_type: r2 } => {
                &&& p1.len() == p2.len()
                &&& forall|i: int| 0 <= i < p1.len() ==> type_eq(#[trigger] p1[i], p2[i])
                &&& type_eq(*r1, *r2)
            },
            _ => false,
        },
        Type::FunctionTemplate(x) => b == Type::FunctionTemplate(x),
        Type::Error => b is Error,
        Type::Unknown => b is Unknown,
        Type::Type => b is Type,
    }
}

/// Law: every type is the same type as itself.
pub proof fn lemma_type_eq_reflexive(t: Type)
    ensures
        type_eq(t, t),
    decreases t,
{
    if let Type::FixedArray { base_type, .. } = t {
        lemma_type_eq_reflexive(*base_type);
    }
    if let Type::Function { parameters, return_type } = t {
        assert forall|i: int| 0 <= i < parameters.len() implies type_eq(#[trigger] parameters[i], parameters[i]) by {
            lemma_type_eq_reflexive(parameters[i]);
        }
        lemma_type_eq_reflexive(*return_type);
    }
}

/// Law: being the same type is symmetric.
pub proof fn lemma_type_eq_symmetric(a: Type, b: Type)
    requires
        type_eq(a, b),
    ensures
        type_eq(b, a),
    decreases a,
{
    match a {
        Type::FixedArray { base_type: t1, .. } => {
            if let Type::FixedArray { base_type: t2, .. } = b {
                lemma_type_eq_symmetric(*t1, *t2);
            }
        },
        Type::Function { parameters: p1, return_type: r1 } => {
            if let Type::Function { parameters: p2, return_type: r2 } = b {
                assert forall|i: int| 0 <= i < p2.len() implies type_eq(#[trigger] p2[i], p1[i]) by {
                    lemma_type_eq_symmetric(p1[i], p2[i]);
                }
                lemma_type_eq_symmetric(*r1, *r2);
            }
        },
        _ => {},
    }
}

/// Law: being the same type is transitive.
pub proof fn lemma_type_eq_transitive(a: Type, b: Type, c: Type)
    requires
        type_eq(a, b),
        type_eq(b, c),
    ensures
        type_eq(a, c),
    decreases a,
{
    match a {
        Type::FixedArray { base_type: t1, .. } => {
            if let Type::FixedArray { base_type: t2, .. } = b {
                if let Type::FixedArray { base_type: t3, .. } = c {
                    lemma_type_eq_transitive(*t1, *t2, *t3);
                }
            }
        },
        Type::Function { parameters: p1, return_type: r1 } => {
            if let Type::Function { parameters: p2, return_type: r2 } = b {
                if let Type::Function { parameters: p3, return_type: r3 } = c {
                    assert forall|i: int| 0 <= i < p1.len() implies type_eq(#[trigger] p1[i], p3[i]) by {
                        lemma_type_eq_transitive(p1[i], p2[i], p3[i]);
                    }
                    lemma_type_eq_transitive(*r1, *r2, *r3);
                }
            }
        },
        _ => {},
    }
}

impl Type {
    /// The integer type, when this is one.
    pub fn as_integer(&self) -> (integer: Option<IntegerType>)
        ensures
            integer == (match *self {
                Type::Integer(t) => Some(t),
                _ => None,
            }),
    {
        match self {
            Type::Integer(integer) => Some(*integer),
            _ => None,
        }
    }

    /// Whether this is an integer type.
    pub fn is_integer(&self) -> (integer: bool)
        ensures
            integer == (*self is Integer),
    {
        self.as_integer().is_some()
    }

    /// Whether two types are the same type.
    #[verifier::loop_isolation(false)]
    pub fn same_as(&self, other: &Type) -> (same: bool)
        ensures
            same == type_eq(*self, *other),
        decreases self,
    {
        match self {
            Type::Integer(x) => match other {
                Type::Integer(y) => *x == *y,
                _ => false,
            },
            Type::Module(x) => match other {
                Type::Module(y) => *x == *y,
                _ => false,
            },
            Type::Bool => matches!(other, Type::Bool),
            Type::Str => matches!(other, Type::Str),
            Type::Unit => matches!(other, Type::Unit),
            Type::FixedArray { size: s1, base_type: t1 } => match other {
                Type::FixedArray { size: s2, base_type: t2 } => *s1 == *s2 && t1.same_as(t2),
                _ => false,
            },
            Type::Function { parameters: p1, return_type: r1 } => match other {
                Type::Function { parameters: p2, return_type: r2 } => {
                    if p1.len() != p2.len() {
                        return false;
                    }
                    let mut i: usize = 0;
                    while i < p1.len()
                        invariant
                            p1.len() == p2.len(),
                            i <= p1.len(),
                            forall|k: int| 0 <= k < i ==> type_eq(#[trigger] p1[k], p2[k]),
                        decreases p1.len() - i,
                    {
                        if !p1[i].same_as(&p2[i]) {
                            return false;
                        }
                        i += 1;
                    }
                    r1.same_as(r2)
                },
                _ => false,
            },
            Type::FunctionTemplate(x) => match other {
                Type::FunctionTemplate(y) => *x == *y,
                _ => false,
            },
            Type::Error => matches!(other, Type::Error),
            Type::Unknown => matches!(other, Type::Unknown),
            Type::Type => matches!(other, Type::Type),
        }
    }

    /// A copy of the type.
    #[verifier::loop_isolation(false)]
    pub fn duplicate(&self) -> (copy: Type)
        ensures
            type_eq(copy, *self),
        decreases self,
    {
        match self {
            Type::Integer(x) => Type::Integer(*x),
            Type::Module(x) => Type::Module(*x),
            Type::Bool => Type::Bool,
            Type::Str => Type::Str,
            Type::Unit => Type::Unit,
            Type::FixedArray { size, base_type } => Type::FixedArray { size: *size, base_type: Box::new(base_type.duplicate()) },
            Type::Function { parameters, return_type } => {
                let mut copies: Vec<Type> = Vec::new();
                let mut i: usize = 0;
                while i < parameters.len()
                    invariant
                        i <= parameters.len(),
                        copies.len() == i,
                        forall|k: int| 0 <= k < i ==> type_eq(#[trigger] copies[k], parameters[k]),
                    decreases parameters.len() - i,
                {
                    copies.push(parameters[i].duplicate());
                    i += 1;
                }
                Type::Function { parameters: copies, return_type: Box::new(return_type.duplicate()) }
            },
            Type::FunctionTemplate(x) => Type::FunctionTemplate(*x),
            Type::Error => Type::Error,
            Type::Unknown => Type::Unknown,
            Type::Type => Type::Type,
        }
    }
}

impl Clone for Type {
    fn clone(&self) -> (copy: Type)
        ensures
            type_eq(copy, *self),
    {
        self.duplicate()
    }
}

/// A compile-time value that identifies one specialization of a template.
#[derive(Debug)]
pub enum ComptimeKey {
    Integer { value: i128, type_: IntegerType },
    Str(String),
    Type(Type),
    Bool(bool),
}

/// Two keys are the same key: same variant, same contents.
pub open spec fn key_eq(a: ComptimeKey, b: ComptimeKey) -> bool {
    match (a, b) {
        (ComptimeKey::Integer { value: v1, type_: t1 }, ComptimeKey::Integer { value: v2, type_: t2 }) => v1 == v2 && t1 == t2,
        (ComptimeKey::Str(s1), ComptimeKey::Str(s2)) => s1@ == s2@,
        (ComptimeKey::Type(t1), ComptimeKey::Type(t2)) => type_eq(t1, t2),
        (ComptimeKey::Bool(b1), ComptimeKey::Bool(b2)) => b1 == b2,
        _ => false,
    }
}

impl ComptimeKey {
    /// Whether two keys are the same key.
    pub fn same_as(&self, other: &ComptimeKey) -> (same: bool)
        ensures
            same == key_eq(*self, *other),
    {
        match (self, other) {
            (ComptimeKey::Integer { value: v1, type_: t1 }, ComptimeKey::Integer { value: v2, type_: t2 }) => *v1 == *v2 && *t1 == *t2,
            (ComptimeKey::Str(s1), ComptimeKey::Str(s2)) => *s1 == *s2,
            (ComptimeKey::Type(t1), ComptimeKey::Type(t2)) => t1.same_as(t2),
            (ComptimeKey::Bool(b1), ComptimeKey::Bool(b2)) => *b1 == *b2,
            _ => false,
        }
    }
}

/// A template together with the compile-time arguments it is specialized for.
#[derive(Debug)]
pub struct SpecializationKey {
    pub template: FunctionTemplateId,
    pub arguments: Vec<ComptimeKey>,
}

/// Two specialization keys name the same specialization.
pub open spec fn specialization_key_eq(a: SpecializationKey, b: SpecializationKey) -> bool {
    &&& a.template == b.template
    &&& a.arguments@.len() == b.arguments@.len()
    &&& forall|i: int| 0 <= i < a.arguments@.len() ==> key_eq(#[trigger] a.arguments@[i], b.arguments@[i])
}

impl SpecializationKey {
    /// Whether two keys name the same specialization.
    pub fn same_as(&self, other: &SpecializationKey) -> (same: bool)
        ensures
            same == specialization_key_eq(*self, *other),
    {
        if self.template != other.template || self.arguments.len() != other.arguments.len() {
            return false;
        }
        let mut i: usize = 0;
        while i < self.arguments.len()
            invariant
                self.template == other.template,
                self.arguments@.len() == other.arguments@.len(),
                i <= self.arguments@.len(),
                forall|k: int| 0 <= k < i ==> key_eq(#[trigger] self.arguments@[k], other.arguments@[k]),
            decreases self.arguments@.len() - i,
        {
            if !self.arguments[i].same_as(&other.arguments[i]) {
                return false;
            }
            i += 1;
        }
        true
    }
}

/// Identifies a function type.
#[derive(Debug, Clone, Copy, PartialEq, Eq, Structural)]
pub struct FunctionTypeId(pub usize);

/// A function type, by what it returns.
#[derive(Debug)]
pub struct FunctionType {
    pub return_type: Type,
}

/// The integer types.
#[derive(Debug, Clone, Copy, PartialEq, Eq, Structural, Hash)]
pub enum IntegerType {
    U8,
    I8,
    U16,
    I16,
    U32,
    I32,
    U64,
    I64,
    Usize,
    Isize,
}

/// Whether an integer type holds negative values.
pub open spec fn spec_is_signed(t: IntegerType) -> bool {
    t is I8 || t is I16 || t is I32 || t is I64 || t is Isize
}

/// The number of bits of an integer type on the target.
pub open spec fn spec_bit_width(t: IntegerType, target: TargetInfo) -> u32 {
    match t {
        IntegerType::U8 | IntegerType::I8 => 8,
        IntegerType::U16 | IntegerType::I16 => 16,
        IntegerType::U32 | IntegerType::I32 => 32,
        IntegerType::U64 | IntegerType::I64 => 64,
        IntegerType::Usize | IntegerType::Isize => target.pointer_bit_width,
    }
}

/// The target's pointer width is one that the pointer-sized types support.
pub open spec fn supported_width(target: TargetInfo) -> bool {
    target.pointer_bit_width == 32 || target.pointer_bit_width == 64
}

/// The range of an integer type is known on the target: always, except for
/// the pointer-sized types on a target whose pointers are neither 32 nor 64 bits wide.
pub open spec fn range_known(t: IntegerType, target: TargetInfo) -> bool {
    (t is Usize || t is Isize) ==> supported_width(target)
}

/// The smallest value of an integer type.
pub open spec fn spec_minimum(t: IntegerType, target: TargetInfo) -> int {
    match t {
        IntegerType::U8 | IntegerType::U16 | IntegerType::U32 | IntegerType::U64 | IntegerType::Usize => 0,
        IntegerType::I8 => -0x80,
        IntegerType::I16 => -0x8000,
        IntegerType::I32 => -0x8000_0000,
        IntegerType::I64 => -0x8000_0000_0000_0000,
        IntegerType::Isize => if target.pointer_bit_width == 32 { -0x8000_0000 } else { -0x8000_0000_0000_0000 },
    }
}

/// The largest value of an integer type.
pub open spec fn spec_maximum(t: IntegerType, target: TargetInfo) -> int {
    match t {
        IntegerType::U8 => 0xff,
        IntegerType::I8 => 0x7f,
        IntegerType::U16 => 0xffff,
        IntegerType::I16 => 0x7fff,
        IntegerType::U32 => 0xffff_ffff,
        IntegerType::I32 => 0x7fff_ffff,
        IntegerType::U64 => 0xffff_ffff_ffff_ffff,
        IntegerType::I64 => 0x7fff_ffff_ffff_ffff,
        IntegerType::Isize => if target.pointer_bit_width == 32 { 0x7fff_ffff } else { 0x7fff_ffff_ffff_ffff },
        IntegerType::Usize => if target.pointer_bit_width == 32 { 0xffff_ffff } else { 0xffff_ffff_ffff_ffff },
    }
}

/// How an integer type is written in source text.
pub open spec fn integer_type_name(t: IntegerType) -> Seq<char> {
    match t {
        IntegerType::U8 => "u8"@,
        IntegerType::I8 => "i8"@,
        IntegerType::U16 => "u16"@,
        IntegerType::I16 => "i16"@,
        IntegerType::U32 => "u32"@,
        IntegerType::I32 => "i32"@,
        IntegerType::U64 => "u64"@,
        IntegerType::I64 => "i64"@,
        IntegerType::Usize => "usize"@,
        IntegerType::Isize => "isize"@,
    }
}

impl IntegerType {
    /// Whether the type holds negative values.
    pub fn is_signed(self) -> (signed: bool)
        ensures
            signed == spec_is_signed(self),
    {
        match self {
            IntegerType::I8 | IntegerType::I16 | IntegerType::I32 | IntegerType::I64 | IntegerType::Isize => true,
            _ => false,
        }
    }

    /// The number of bits of the type on the target.
    pub fn bit_width(self, target: &TargetInfo) -> (width: u32)
        ensures
            width == spec_bit_width(self, *target),
    {
        match self {
            IntegerType::U8 | IntegerType::I8 => 8,
            IntegerType::U16 | IntegerType::I16 => 16,
            IntegerType::I32 | IntegerType::U32 => 32,
            IntegerType::U64 | IntegerType::I64 => 64,
            IntegerType::Usize | IntegerType::Isize => target.pointer_bit_width,
        }
    }

    /// The smallest value of the type on the target.
    pub fn minimum_value(self, target: &TargetInfo) -> (minimum: i128)
        requires
            self is Isize ==> supported_width(*target),
        ensures
            minimum == spec_minimum(self, *target),
    {
        match self {
            IntegerType::U8 | IntegerType::U16 | IntegerType::U32 | IntegerType::U64 | IntegerType::Usize => 0,
            IntegerType::I8 => -0x80,
            IntegerType::I16 => -0x8000,
            IntegerType::I32 => -0x8000_0000,
            IntegerType::I64 => -0x8000_0000_0000_0000,
            IntegerType::Isize => if target.pointer_bit_width == 32 {
                -0x8000_0000
            } else {
                -0x8000_0000_0000_0000
            },
        }
    }

    /// The largest value of the type on the target.
    pub fn maximum_value(self, target: &TargetInfo) -> (maximum: i128)
        requires
            range_known(self, *target),
        ensures
            maximum == spec_maximum(self, *target),
    {
        match self {
            IntegerType::U8 => 0xff,
            IntegerType::I8 => 0x7f,
            IntegerType::U16 => 0xffff,
            IntegerType::I16 => 0x7fff,
            IntegerType::U32 => 0xffff_ffff,
            IntegerType::I32 => 0x7fff_ffff,
            IntegerType::U64 => 0xffff_ffff_ffff_ffff,
            IntegerType::I64 => 0x7fff_ffff_ffff_ffff,
            IntegerType::Isize => if target.pointer_bit_width == 32 {
                0x7fff_ffff
            } else {
                0x7fff_ffff_ffff_ffff
            },
            IntegerType::Usize => if target.pointer_bit_width == 32 {
                0xffff_ffff
            } else {
                0xffff_ffff_ffff_ffff
            },
        }
    }

    /// Whether `value` lies in the range of the type on the target.
    pub fn contains(self, value: i128, target: &TargetInfo) -> (contained: bool)
        requires
            range_known(self, *target),
        ensures
            contained == (spec_minimum(self, *target) <= value <= spec_maximum(self, *target)),
    {
        value >= self.minimum_value(target) && value <= self.maximum_value(target)
    }

    /// How the type is written in source text.
    pub fn name(self) -> (name: &'static str)
        ensures
            name@ == integer_type_name(self),
    {
        match self {
            IntegerType::U8 => "u8",
            IntegerType::I8 => "i8",
            IntegerType::U16 => "u16",
            IntegerType::I16 => "i16",
            IntegerType::U32 => "u32",
            IntegerType::I32 => "i32",
            IntegerType::U64 => "u64",
            IntegerType::I64 => "i64",
            IntegerType::Usize => "usize",
            IntegerType::Isize => "isize",
        }
    }
}

/// Law: an integer type of `n` bits holds exactly the values of `n`-bit two's
/// complement when signed, and `0..2^n` when unsigned.
pub proof fn lemma_range_matches_bit_width(t: IntegerType, target: TargetInfo)
    requires
        range_known(t, target),
    ensures
        ({
            let n = spec_bit_width(t, target) as nat;
            if spec_is_signed(t) {
                &&& spec_minimum(t, target) == -(vstd::arithmetic::power2::pow2((n - 1) as nat) as int)
                &&& spec_maximum(t, target) == vstd::arithmetic::power2::pow2((n - 1) as nat) - 1
            } else {
                &&& spec_minimum(t, target) == 0
                &&& spec_maximum(t, target) == vstd::arithmetic::power2::pow2(n) - 1
            }
        }),
{
    vstd::arithmetic::power2::lemma2_to64();
    vstd::arithmetic::power2::lemma2_to64_rest();
}

} // verus!
