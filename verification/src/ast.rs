//! An abstract syntax tree produced by grammar-based mutators, and its
//! rendering to a string.
use vstd::prelude::*;

verus! {

/// An abstract syntax tree: a single token, a sequence of subtrees, or a
/// boxed subtree.
#[derive(Debug, PartialEq, Eq, Hash)]
pub enum AST {
    Token(char),
    Sequence(Vec<AST>),
    Box(Box<AST>),
}

/// The characters that an AST renders to: tokens in depth-first order.
pub open spec fn ast_string(ast: AST) -> Seq<char>
    decreases ast,
{
    match ast {
        AST::Token(c) => seq![c],
        AST::Sequence(asts) => ast_seq_string(asts@),
        AST::Box(ast) => ast_string(*ast),
    }
}

/// The characters that a sequence of ASTs renders to, in order.
pub open spec fn ast_seq_string(asts: Seq<AST>) -> Seq<char>
    decreases asts,
{
    if asts.len() == 0 {
        Seq::empty()
    } else {
        ast_seq_string(asts.drop_last()) + ast_string(asts.last())
    }
}

impl AST {
    /// Appends this tree's rendering to `string`.
    fn generate_string_in(&self, string: &mut String)
        ensures
            final(string)@ == old(string)@ + ast_string(*self),
        decreases *self,
    {
        match self {
            AST::Token(c) => {
                crate::strings::string_push_char(string, *c);
            },
            AST::Sequence(asts) => {
                let ghost start = string@;
                let mut i: usize = 0;
                while i < asts.len()
                    invariant
                        *self == AST::Sequence(*asts),
                        i <= asts.len(),
                        string@ == start + ast_seq_string(asts@.take(i as int)),
                    decreases asts.len() - i,
                {
                    proof {
                        assert(decreases_to!(*self => self->Sequence_0));
                        assert(self->Sequence_0 == *asts);
                        assert(decreases_to!(*asts => asts@[i as int]));
                        assert(decreases_to!(*self => asts@[i as int]));
                        assert(asts@.take(i as int + 1).drop_last() =~= asts@.take(i as int));
                        assert(asts@.take(i as int + 1).last() == asts@[i as int]);
                    }
                    let element = &asts[i];
                    element.generate_string_in(string);
                    i += 1;
                }
                proof {
                    assert(asts@.take(asts@.len() as int) =~= asts@);
                }
            },
            AST::Box(ast) => {
                ast.generate_string_in(string);
            },
        }
    }

    /// Renders the AST to the string of its tokens.
    pub fn to_string(&self) -> (r: String)
        ensures
            r@ == ast_string(*self),
    {
        let mut s = String::new();
        self.generate_string_in(&mut s);
        s
    }
}

} // verus!
