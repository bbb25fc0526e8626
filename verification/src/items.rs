use vstd::prelude::*;
use vstd::string::*;

use crate::text::concat3;

verus! {

/// The identifier of a trait.
#[derive(Clone, Copy, Debug, Hash, PartialEq, Eq, Structural)]
pub struct TraitId(pub u64);

/// The identifier of the definition of an impl.
#[derive(Clone, Copy, Debug, Hash, PartialEq, Eq, Structural)]
pub struct ImplDefId(pub u64);

/// The identifier of a generic parameter.
#[derive(Clone, Copy, Debug, Hash, PartialEq, Eq, Structural)]
pub struct GenericParam(pub u64);

fn clone_params(params: &Vec<GenericParam>) -> (copy: Vec<GenericParam>)
    ensures
        copy@ == params@,
{
    let mut copy: Vec<GenericParam> = Vec::new();
    let mut i: usize = 0;
    while i < params.len()
        invariant
            i <= params.len(),
            copy@ == params@.take(i as int),
        decreases params.len() - i,
    {
        copy.push(params[i]);
        proof {
            assert(params@.take(i + 1) =~= params@.take(i as int).push(params@[i as int]));
        }
        i += 1;
    }
    proof {
        assert(params@.take(params@.len() as int) =~= params@);
    }
    copy
}

/// A context of a trait, if in a trait. This is used in the resolver to resolve
/// "Self::" paths.
#[derive(Debug, Hash, PartialEq, Eq)]
pub struct TraitContext {
    pub trait_id: TraitId,
    pub generic_parameters: Vec<GenericParam>,
}

impl Clone for TraitContext {
    fn clone(&self) -> (copy: Self)
        ensures
            copy.trait_id == self.trait_id,
            copy.generic_parameters@ == self.generic_parameters@,
    {
        TraitContext {
            trait_id: self.trait_id,
            generic_parameters: clone_params(&self.generic_parameters),
        }
    }
}

impl TraitContext {
    /// The context as it is shown for debugging, given the name of the trait.
    pub fn debug_text(&self, trait_name: &str) -> (shown: String)
        ensures
            shown@ == trait_name@ + "::<"@ + ">"@,
    {
        concat3(trait_name, "::<", ">")
    }
}

/// A context of an impl, if in an impl. This is used in the resolver to resolve
/// "Self::" paths and in implizations.
#[derive(Debug, Hash, PartialEq, Eq)]
pub struct ImplContext {
    pub impl_def_id: ImplDefId,
    pub generic_parameters: Vec<GenericParam>,
}

impl Clone for ImplContext {
    fn clone(&self) -> (copy: Self)
        ensures
            copy.impl_def_id == self.impl_def_id,
            copy.generic_parameters@ == self.generic_parameters@,
    {
        ImplContext {
            impl_def_id: self.impl_def_id,
            generic_parameters: clone_params(&self.generic_parameters),
        }
    }
}

impl ImplContext {
    /// The context as it is shown for debugging, given the name of the impl.
    pub fn debug_text(&self, impl_name: &str) -> (shown: String)
        ensures
            shown@ == impl_name@ + "::<"@ + ">"@,
    {
        concat3(impl_name, "::<", ">")
    }
}

/// A context of a trait or an impl, if in any of those. This is used in the resolver to resolve
/// "Self::" paths.
#[derive(Debug, Hash, PartialEq, Eq)]
pub enum TraitOrImplContext {
    /// No trait/impl context.
    NoContext,
    /// The context is of a trait.
    Trait(TraitContext),
    /// The context is of an impl.
    Impl(ImplContext),
}

impl TraitOrImplContext {
    /// Returns the context as a trait context, if the context is indeed a trait context, or None
    /// otherwise.
    pub fn trait_context(&self) -> (found: Option<TraitContext>)
        ensures
            match *self {
                TraitOrImplContext::Trait(ctx) => found matches Some(copy) && copy.trait_id
                    == ctx.trait_id && copy.generic_parameters@ == ctx.generic_parameters@,
                _ => found is None,
            },
    {
        if let TraitOrImplContext::Trait(ctx) = self {
            Some(ctx.clone())
        } else {
            None
        }
    }

    /// Returns the context as an impl context, if the context is indeed an impl context, or None
    /// otherwise.
    pub fn impl_context(&self) -> (found: Option<ImplContext>)
        ensures
            match *self {
                TraitOrImplContext::Impl(ctx) => found matches Some(copy) && copy.impl_def_id
                    == ctx.impl_def_id && copy.generic_parameters@ == ctx.generic_parameters@,
                _ => found is None,
            },
    {
        if let TraitOrImplContext::Impl(ctx) = self {
            Some(ctx.clone())
        } else {
            None
        }
    }

    /// The context as it is shown for debugging, given the name of the trait
    /// or impl that it is the context of.
    pub fn debug_text(&self, name: &str) -> (shown: String)
        ensures
            shown@ == match *self {
                TraitOrImplContext::NoContext => "None"@,
                _ => name@ + "::<"@ + ">"@,
            },
    {
        match self {
            TraitOrImplContext::NoContext => String::from_str("None"),
            TraitOrImplContext::Trait(ctx) => ctx.debug_text(name),
            TraitOrImplContext::Impl(ctx) => ctx.debug_text(name),
        }
    }
}

/// What a path in generic position resolved to.
#[derive(Clone, Copy, Debug, PartialEq, Eq, Structural)]
pub enum ResolvedGenericItem {
    /// A trait.
    Trait(TraitId),
    /// An impl.
    Impl(ImplDefId),
    /// An item of another kind.
    Other,
}

/// A diagnostic of semantic analysis.
#[derive(Clone, Copy, Debug, PartialEq, Eq, Structural)]
pub enum SemanticDiagnosticKind {
    /// A path that has to name a trait names something else.
    NotATrait,
}

/// The mark that a diagnostic for a failure has been reported already.
#[derive(Clone, Copy, Debug, PartialEq, Eq, Structural)]
pub struct DiagnosticAdded;

/// Tries to resolve a trait path, given what the path resolved to. Reports a
/// diagnostic if the path doesn't point to a trait.
pub fn resolve_trait_path(
    diagnostics: &mut Vec<SemanticDiagnosticKind>,
    resolved: Result<ResolvedGenericItem, DiagnosticAdded>,
) -> (res: Result<TraitId, DiagnosticAdded>)
    ensures
        match resolved {
            Ok(ResolvedGenericItem::Trait(trait_id)) => res == Ok::<TraitId, DiagnosticAdded>(
                trait_id,
            ) && final(diagnostics)@ == old(diagnostics)@,
            Ok(_) => res is Err && final(diagnostics)@ == old(diagnostics)@.push(
                SemanticDiagnosticKind::NotATrait,
            ),
            Err(_) => res is Err && final(diagnostics)@ == old(diagnostics)@,
        },
{
    match resolved {
        Ok(ResolvedGenericItem::Trait(trait_id)) => Ok(trait_id),
        Ok(_) => {
            diagnostics.push(SemanticDiagnosticKind::NotATrait);
            Err(DiagnosticAdded)
        },
        Err(added) => Err(added),
    }
}

} // verus!
