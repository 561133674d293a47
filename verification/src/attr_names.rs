//! Which attribute each attribute name stands for, as the JVM specification (§4.7) names them.
use vstd::prelude::*;
use crate::attr_spec::{attr_is, attr_kind, AttrKind};
use crate::attributes::Attribute;
use crate::bytes::be16;
use crate::error::ParseError;
use crate::mutf8::{modified_utf8_chars, modified_utf8_valid};

verus! {

/// The attribute `x` is of the kind that the JVM specification gives the name `name`
/// (in the order of the sections of the specification that describe them).
pub open spec fn named_as(name: Seq<char>, x: Attribute) -> bool {
    if name == "ConstantValue"@ {
        x is ConstantValue
    } else if name == "Code"@ {
        x is Code
    } else if name == "StackMapTable"@ {
        x is StackMapTable
    } else if name == "Exceptions"@ {
        x is Exceptions
    } else if name == "InnerClasses"@ {
        x is InnerClasses
    } else if name == "EnclosingMethod"@ {
        x is EnclosingMethod
    } else if name == "Synthetic"@ {
        x is Synthetic
    } else if name == "Signature"@ {
        x is Signature
    } else if name == "SourceFile"@ {
        x is SourceFile
    } else if name == "SourceDebugExtension"@ {
        x is SourceDebugExtenson
    } else if name == "LineNumberTable"@ {
        x is LineNumberTable
    } else if name == "LocalVariableTable"@ {
        x is LocalVariableTable
    } else if name == "LocalVariableTypeTable"@ {
        x is LocalVariableTypeTable
    } else if name == "Deprecated"@ {
        x is Deprecated
    } else if name == "RuntimeVisibleAnnotations"@ {
        x is RuntimeVisibleAnnotations
    } else if name == "RuntimeInvisibleAnnotations"@ {
        x is RuntimeInvisibleAnnotations
    } else if name == "RuntimeVisibleParameterAnnotations"@ {
        x is RuntimeVisibleParameterAnnotations
    } else if name == "RuntimeInvisibleParameterAnnotations"@ {
        x is RuntimeInvisibleParameterAnnotations
    } else if name == "RuntimeVisibleTypeAnnotations"@ {
        x is RuntimeVisibleTypeAnnotations
    } else if name == "RuntimeInvisibleTypeAnnotations"@ {
        x is RuntimeInvisibleTypeAnnotations
    } else if name == "AnnotationDefault"@ {
        x is AnnotationDefault
    } else if name == "BootstrapMethods"@ {
        x is BootstrapMethods
    } else if name == "MethodParameters"@ {
        x is MethodParameters
    } else {
        true
    }
}

/// An attribute is read as the kind that its name stands for: a `Code` attribute for the
/// name `Code`, a `SourceFile` attribute for `SourceFile`, and so on for every attribute
/// the library reads.
pub proof fn law_attribute_names(s: Seq<u8>, p: int, cp: Seq<Option<Seq<u8>>>, x: Attribute)
    requires
        0 <= p,
        p + 6 <= s.len(),
        1 <= be16(s, p) <= cp.len(),
        cp[be16(s, p) - 1] matches Some(b) && modified_utf8_valid(b),
        attr_is(s, p, cp, x),
    ensures
        named_as(modified_utf8_chars(cp[be16(s, p) - 1].unwrap()), x),
{
    let idx = be16(s, p);
    let name = modified_utf8_chars(cp[idx - 1].unwrap());
    if name == "ConstantValue"@ {
        assert(attr_kind(cp, idx) == Ok::<AttrKind, ParseError>(AttrKind::ConstantValue));
    } else if name == "Code"@ {
        assert(attr_kind(cp, idx) == Ok::<AttrKind, ParseError>(AttrKind::Code));
    } else if name == "StackMapTable"@ {
        assert(attr_kind(cp, idx) == Ok::<AttrKind, ParseError>(AttrKind::StackMapTable));
    } else if name == "Exceptions"@ {
        assert(attr_kind(cp, idx) == Ok::<AttrKind, ParseError>(AttrKind::Exceptions));
    } else if name == "InnerClasses"@ {
        assert(attr_kind(cp, idx) == Ok::<AttrKind, ParseError>(AttrKind::InnerClasses));
    } else if name == "EnclosingMethod"@ {
        assert(attr_kind(cp, idx) == Ok::<AttrKind, ParseError>(AttrKind::EnclosingMethod));
    } else if name == "Synthetic"@ {
        assert(attr_kind(cp, idx) == Ok::<AttrKind, ParseError>(AttrKind::Synthetic));
    } else if name == "Signature"@ {
        assert(attr_kind(cp, idx) == Ok::<AttrKind, ParseError>(AttrKind::Signature));
    } else if name == "SourceFile"@ {
        assert(attr_kind(cp, idx) == Ok::<AttrKind, ParseError>(AttrKind::SourceFile));
    } else if name == "SourceDebugExtension"@ {
        assert(attr_kind(cp, idx) == Ok::<AttrKind, ParseError>(AttrKind::SourceDebugExtension));
    } else if name == "LineNumberTable"@ {
        assert(attr_kind(cp, idx) == Ok::<AttrKind, ParseError>(AttrKind::LineNumberTable));
    } else if name == "LocalVariableTable"@ {
        assert(attr_kind(cp, idx) == Ok::<AttrKind, ParseError>(AttrKind::LocalVariableTable));
    } else if name == "LocalVariableTypeTable"@ {
        assert(attr_kind(cp, idx) == Ok::<AttrKind, ParseError>(AttrKind::LocalVariableTypeTable));
    } else if name == "Deprecated"@ {
        assert(attr_kind(cp, idx) == Ok::<AttrKind, ParseError>(AttrKind::Deprecated));
    } else if name == "RuntimeVisibleAnnotations"@ {
        assert(attr_kind(cp, idx) == Ok::<AttrKind, ParseError>(AttrKind::RuntimeVisibleAnnotations));
    } else if name == "RuntimeInvisibleAnnotations"@ {
        assert(attr_kind(cp, idx) == Ok::<AttrKind, ParseError>(AttrKind::RuntimeInvisibleAnnotations));
    } else if name == "RuntimeVisibleParameterAnnotations"@ {
        assert(attr_kind(cp, idx) == Ok::<AttrKind, ParseError>(AttrKind::RuntimeVisibleParameterAnnotations));
    } else if name == "RuntimeInvisibleParameterAnnotations"@ {
        assert(attr_kind(cp, idx) == Ok::<AttrKind, ParseError>(AttrKind::RuntimeInvisibleParameterAnnotations));
    } else if name == "RuntimeVisibleTypeAnnotations"@ {
        assert(attr_kind(cp, idx) == Ok::<AttrKind, ParseError>(AttrKind::RuntimeVisibleTypeAnnotations));
    } else if name == "RuntimeInvisibleTypeAnnotations"@ {
        assert(attr_kind(cp, idx) == Ok::<AttrKind, ParseError>(AttrKind::RuntimeInvisibleTypeAnnotations));
    } else if name == "AnnotationDefault"@ {
        assert(attr_kind(cp, idx) == Ok::<AttrKind, ParseError>(AttrKind::AnnotationDefault));
    } else if name == "BootstrapMethods"@ {
        assert(attr_kind(cp, idx) == Ok::<AttrKind, ParseError>(AttrKind::BootstrapMethods));
    } else if name == "MethodParameters"@ {
        assert(attr_kind(cp, idx) == Ok::<AttrKind, ParseError>(AttrKind::MethodParameters));
    }
}

} // verus!
