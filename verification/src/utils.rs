//! Type signatures of host methods, in the notation of the Java Native
//! Interface.

use vstd::prelude::*;
use vstd::string::*;

verus! {

/// The type of one parameter of a host method.
#[derive(Debug, PartialEq, Eq)]
pub enum MethodType {
    /// A `java.lang.String`.
    String,
    /// A 32-bit integer, written `I`.
    I32,
    /// A 64-bit integer, written `L`.
    I64,
    /// A 32-bit floating-point number, written `F`.
    F32,
    /// A 64-bit floating-point number, written `D`.
    F64,
    /// A character, written `C`.
    Char,
    /// A truth value, written `Z`.
    Bool,
    /// A class, by its fully qualified name with `/` between the parts.
    Qualified(String),
    /// An array of the given type.
    Arr(Box<MethodType>),
}

impl MethodType {
    /// The signature of the type.
    pub open spec fn jni_type(self) -> Seq<char>
        decreases self,
    {
        match self {
            MethodType::Bool => "Z"@,
            MethodType::Char => "C"@,
            MethodType::I32 => "I"@,
            MethodType::I64 => "L"@,
            MethodType::F32 => "F"@,
            MethodType::F64 => "D"@,
            MethodType::Qualified(name) => "L"@ + name@ + ";"@,
            MethodType::String => "L"@ + "java/lang/String"@ + ";"@,
            MethodType::Arr(ty) => "["@ + ty.jni_type(),
        }
    }

    /// Writes the signature of the type.
    pub fn to_jni_type(&self) -> (s: String)
        ensures
            s@ == self.jni_type(),
        decreases self,
    {
        match self {
            MethodType::Bool => String::from_str("Z"),
            MethodType::Char => String::from_str("C"),
            MethodType::I32 => String::from_str("I"),
            MethodType::I64 => String::from_str("L"),
            MethodType::F32 => String::from_str("F"),
            MethodType::F64 => String::from_str("D"),
            MethodType::Qualified(name) => class_signature(name.as_str()),
            MethodType::String => class_signature("java/lang/String"),
            MethodType::Arr(ty) => {
                let mut s: String = String::from_str("[");
                let inner: String = ty.to_jni_type();
                s.append(inner.as_str());
                s
            },
        }
    }
}

/// The type that a host method returns.
#[derive(Debug, PartialEq, Eq)]
pub enum ReturnMethodType {
    /// A `java.lang.String`.
    String,
    /// A 32-bit integer, written `I`.
    I32,
    /// A 64-bit integer, written `L`.
    I64,
    /// A 32-bit floating-point number, written `F`.
    F32,
    /// A 64-bit floating-point number, written `D`.
    F64,
    /// A character, written `C`.
    Char,
    /// A truth value, written `Z`.
    Bool,
    /// A class, by its fully qualified name with `/` between the parts.
    Qualified(String),
    /// An array of the given type.
    Arr(Box<MethodType>),
    /// Nothing is returned.
    Void,
}

impl ReturnMethodType {
    /// The signature of the type.
    pub open spec fn jni_type(self) -> Seq<char> {
        match self {
            ReturnMethodType::Bool => "Z"@,
            ReturnMethodType::Char => "C"@,
            ReturnMethodType::I32 => "I"@,
            ReturnMethodType::I64 => "L"@,
            ReturnMethodType::F32 => "F"@,
            ReturnMethodType::F64 => "D"@,
            ReturnMethodType::Qualified(name) => "L"@ + name@ + ";"@,
            ReturnMethodType::String => "L"@ + "java/lang/String"@ + ";"@,
            ReturnMethodType::Arr(ty) => "["@ + ty.jni_type(),
            ReturnMethodType::Void => "V"@,
        }
    }

    /// Writes the signature of the type.
    pub fn to_jni_type(&self) -> (s: String)
        ensures
            s@ == self.jni_type(),
    {
        match self {
            ReturnMethodType::Bool => String::from_str("Z"),
            ReturnMethodType::Char => String::from_str("C"),
            ReturnMethodType::I32 => String::from_str("I"),
            ReturnMethodType::I64 => String::from_str("L"),
            ReturnMethodType::F32 => String::from_str("F"),
            ReturnMethodType::F64 => String::from_str("D"),
            ReturnMethodType::Qualified(name) => class_signature(name.as_str()),
            ReturnMethodType::String => class_signature("java/lang/String"),
            ReturnMethodType::Arr(ty) => {
                let mut s: String = String::from_str("[");
                let inner: String = ty.to_jni_type();
                s.append(inner.as_str());
                s
            },
            ReturnMethodType::Void => String::from_str("V"),
        }
    }
}

/// The signature of the class `name`: `L`, the name, `;`.
fn class_signature(name: &str) -> (s: String)
    ensures
        s@ == "L"@ + name@ + ";"@,
{
    let mut s: String = String::from_str("L");
    s.append(name);
    s.append(";");
    s
}

/// The signatures of the parameters, one after the other.
pub open spec fn params_text(params: Seq<MethodType>) -> Seq<char>
    decreases params.len(),
{
    if params.len() == 0 {
        Seq::empty()
    } else {
        params_text(params.drop_last()) + params.last().jni_type()
    }
}

/// The signature of a method: the parameters between round brackets, then
/// the return type.
pub open spec fn signature_text(params: Seq<MethodType>, ret: ReturnMethodType) -> Seq<char> {
    "("@ + params_text(params) + ")"@ + ret.jni_type()
}

/// Writes the signature of a method with the given parameter types and
/// return type.
pub fn get_jni_signature(method_types: &[MethodType], ret: ReturnMethodType) -> (s: String)
    ensures
        s@ == signature_text(method_types@, ret),
{
    let mut buf: String = String::from_str("(");
    let n: usize = method_types.len();
    let mut i: usize = 0;
    while i < n
        invariant
            i <= n,
            n == method_types@.len(),
            buf@ == "("@ + params_text(method_types@.take(i as int)),
        decreases n - i,
    {
        let ty: String = method_types[i].to_jni_type();
        buf.append(ty.as_str());
        proof {
            let next = method_types@.take(i + 1);
            assert(next.drop_last() =~= method_types@.take(i as int));
            assert(next.last() == method_types@[i as int]);
        }
        i = i + 1;
    }
    assert(method_types@.take(n as int) =~= method_types@);
    buf.append(")");
    let tail: String = ret.to_jni_type();
    buf.append(tail.as_str());
    buf
}

} // verus!
