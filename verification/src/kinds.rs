//! How operators, visibilities and return types are told from what is written.
use crate::ast::{BinOp, NodeType, UnOp, Visibility};
use crate::syntax::{SrcType, TypeV};
use crate::text::same_text;
use vstd::prelude::*;

verus! {

/// The two-place operator that is written `s`.
pub open spec fn bin_op_of(s: Seq<char>) -> Option<BinOp> {
    if s == "+"@ {
        Some(BinOp::Add)
    } else if s == "-"@ {
        Some(BinOp::Sub)
    } else if s == "*"@ {
        Some(BinOp::Mul)
    } else if s == "/"@ {
        Some(BinOp::Div)
    } else if s == "%"@ {
        Some(BinOp::Rem)
    } else if s == "&&"@ {
        Some(BinOp::And)
    } else if s == "||"@ {
        Some(BinOp::Or)
    } else if s == "^"@ {
        Some(BinOp::BitXor)
    } else if s == "&"@ {
        Some(BinOp::BitAnd)
    } else if s == "|"@ {
        Some(BinOp::BitOr)
    } else if s == "<<"@ {
        Some(BinOp::Shl)
    } else if s == ">>"@ {
        Some(BinOp::Shr)
    } else if s == "=="@ {
        Some(BinOp::Eq)
    } else if s == "<"@ {
        Some(BinOp::Lt)
    } else if s == "<="@ {
        Some(BinOp::Le)
    } else if s == "!="@ {
        Some(BinOp::Ne)
    } else if s == ">="@ {
        Some(BinOp::Ge)
    } else if s == ">"@ {
        Some(BinOp::Gt)
    } else if s == "+="@ {
        Some(BinOp::AddAssign)
    } else if s == "-="@ {
        Some(BinOp::SubAssign)
    } else if s == "*="@ {
        Some(BinOp::MulAssign)
    } else if s == "/="@ {
        Some(BinOp::DivAssign)
    } else if s == "%="@ {
        Some(BinOp::RemAssign)
    } else if s == "^="@ {
        Some(BinOp::BitXorAssign)
    } else if s == "&="@ {
        Some(BinOp::BitAndAssign)
    } else if s == "|="@ {
        Some(BinOp::BitOrAssign)
    } else if s == "<<="@ {
        Some(BinOp::ShlAssign)
    } else if s == ">>="@ {
        Some(BinOp::ShrAssign)
    } else {
        None
    }
}

/// The one-place operator that is written `s`.
pub open spec fn un_op_of(s: Seq<char>) -> Option<UnOp> {
    if s == "*"@ {
        Some(UnOp::Deref)
    } else if s == "!"@ {
        Some(UnOp::Not)
    } else if s == "-"@ {
        Some(UnOp::Neg)
    } else {
        None
    }
}

/// The visibility that is written `s`: nothing, `pub`, or `pub` with a restriction.
pub open spec fn visibility_of(s: Seq<char>) -> Visibility {
    if s.len() == 0 {
        Visibility::Inherited
    } else if s == "pub"@ {
        Visibility::Public
    } else {
        Visibility::Restricted
    }
}

impl BinOp {
    /// The operator that is written `op`.
    pub fn from_syn_item(op: &str) -> (r: Option<BinOp>)
        ensures
            r == bin_op_of(op@),
    {
        if same_text(op, "+") {
            Some(BinOp::Add)
        } else if same_text(op, "-") {
            Some(BinOp::Sub)
        } else if same_text(op, "*") {
            Some(BinOp::Mul)
        } else if same_text(op, "/") {
            Some(BinOp::Div)
        } else if same_text(op, "%") {
            Some(BinOp::Rem)
        } else if same_text(op, "&&") {
            Some(BinOp::And)
        } else if same_text(op, "||") {
            Some(BinOp::Or)
        } else if same_text(op, "^") {
            Some(BinOp::BitXor)
        } else if same_text(op, "&") {
            Some(BinOp::BitAnd)
        } else if same_text(op, "|") {
            Some(BinOp::BitOr)
        } else if same_text(op, "<<") {
            Some(BinOp::Shl)
        } else if same_text(op, ">>") {
            Some(BinOp::Shr)
        } else if same_text(op, "==") {
            Some(BinOp::Eq)
        } else if same_text(op, "<") {
            Some(BinOp::Lt)
        } else if same_text(op, "<=") {
            Some(BinOp::Le)
        } else if same_text(op, "!=") {
            Some(BinOp::Ne)
        } else if same_text(op, ">=") {
            Some(BinOp::Ge)
        } else if same_text(op, ">") {
            Some(BinOp::Gt)
        } else if same_text(op, "+=") {
            Some(BinOp::AddAssign)
        } else if same_text(op, "-=") {
            Some(BinOp::SubAssign)
        } else if same_text(op, "*=") {
            Some(BinOp::MulAssign)
        } else if same_text(op, "/=") {
            Some(BinOp::DivAssign)
        } else if same_text(op, "%=") {
            Some(BinOp::RemAssign)
        } else if same_text(op, "^=") {
            Some(BinOp::BitXorAssign)
        } else if same_text(op, "&=") {
            Some(BinOp::BitAndAssign)
        } else if same_text(op, "|=") {
            Some(BinOp::BitOrAssign)
        } else if same_text(op, "<<=") {
            Some(BinOp::ShlAssign)
        } else if same_text(op, ">>=") {
            Some(BinOp::ShrAssign)
        } else {
            None
        }
    }
}

impl UnOp {
    /// The operator that is written `op`.
    pub fn from_syn_item(op: &str) -> (r: Option<UnOp>)
        ensures
            r == un_op_of(op@),
    {
        if same_text(op, "*") {
            Some(UnOp::Deref)
        } else if same_text(op, "!") {
            Some(UnOp::Not)
        } else if same_text(op, "-") {
            Some(UnOp::Neg)
        } else {
            None
        }
    }
}

impl Visibility {
    /// The visibility that is written `vis`.
    pub fn from_syn_visibility(vis: &str) -> (r: Visibility)
        ensures
            r == visibility_of(vis@),
    {
        if vis.is_empty() {
            Visibility::Inherited
        } else if same_text(vis, "pub") {
            Visibility::Public
        } else {
            Visibility::Restricted
        }
    }
}

/// What a written type `t` names, where `Self` stands for `self_name`.
pub open spec fn return_text(t: TypeV, self_name: Option<Seq<char>>) -> Seq<char> {
    if t.text == "Self"@ && self_name is Some {
        self_name->0
    } else {
        t.text
    }
}

/// Whether `out` is the return type written `output`, where `Self` stands for `self_name`.
pub open spec fn is_return_type(
    output: Option<TypeV>,
    self_name: Option<Seq<char>>,
    out: NodeType,
) -> bool {
    match output {
        None => out is Empty,
        Some(t) => out matches NodeType::Path(s) && s@ == return_text(t, self_name),
    }
}

impl NodeType {
    /// The type that `ty` writes.
    pub fn from_syn_item(ty: &SrcType) -> (r: NodeType)
        ensures
            is_return_type(Some(ty@), None, r),
    {
        NodeType::Path(ty.text.clone())
    }

    /// Whether this is `Self`.
    pub fn is_self(&self) -> (r: bool)
        ensures
            r == (*self matches NodeType::Path(s) && s@ == "Self"@),
    {
        match self {
            NodeType::Path(s) => same_text(s.as_str(), "Self"),
            NodeType::Empty => false,
        }
    }

    /// Puts another path in the place of this one; what has no path stays as it is.
    pub fn replace_path(&mut self, path: String)
        ensures
            *final(self) == (match *old(self) {
                NodeType::Path(_) => NodeType::Path(path),
                NodeType::Empty => NodeType::Empty,
            }),
    {
        match self {
            NodeType::Path(s) => {
                *s = path;
            },
            NodeType::Empty => {},
        }
    }
}

} // verus!
