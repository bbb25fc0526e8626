use cairo_toolkit::items::{
    resolve_trait_path, DiagnosticAdded, GenericParam, ImplContext, ImplDefId,
    ResolvedGenericItem, SemanticDiagnosticKind, TraitContext, TraitId, TraitOrImplContext,
};

fn trait_context() -> TraitContext {
    TraitContext { trait_id: TraitId(3), generic_parameters: vec![GenericParam(1), GenericParam(2)] }
}

fn impl_context() -> ImplContext {
    ImplContext { impl_def_id: ImplDefId(9), generic_parameters: vec![GenericParam(5)] }
}

#[test]
fn trait_context_of_a_trait_context() {
    let context = TraitOrImplContext::Trait(trait_context());
    assert_eq!(context.trait_context(), Some(trait_context()));
    assert_eq!(context.impl_context(), None);
}

#[test]
fn impl_context_of_an_impl_context() {
    let context = TraitOrImplContext::Impl(impl_context());
    assert_eq!(context.impl_context(), Some(impl_context()));
    assert_eq!(context.trait_context(), None);
}

#[test]
fn no_context_is_neither() {
    assert_eq!(TraitOrImplContext::NoContext.trait_context(), None);
    assert_eq!(TraitOrImplContext::NoContext.impl_context(), None);
}

#[test]
fn contexts_are_shown_for_debugging() {
    assert_eq!(trait_context().debug_text("MyTrait"), "MyTrait::<>");
    assert_eq!(impl_context().debug_text("MyImpl"), "MyImpl::<>");
    assert_eq!(TraitOrImplContext::NoContext.debug_text("ignored"), "None");
    assert_eq!(TraitOrImplContext::Trait(trait_context()).debug_text("MyTrait"), "MyTrait::<>");
    assert_eq!(TraitOrImplContext::Impl(impl_context()).debug_text("MyImpl"), "MyImpl::<>");
    assert_eq!(trait_context().clone(), trait_context());
    assert_eq!(impl_context().clone(), impl_context());
}

#[test]
fn resolve_trait_path_reports_what_is_not_a_trait() {
    let mut diagnostics = vec![];
    assert_eq!(
        resolve_trait_path(&mut diagnostics, Ok(ResolvedGenericItem::Trait(TraitId(4)))),
        Ok(TraitId(4))
    );
    assert!(diagnostics.is_empty());
    assert_eq!(
        resolve_trait_path(&mut diagnostics, Ok(ResolvedGenericItem::Impl(ImplDefId(4)))),
        Err(DiagnosticAdded)
    );
    assert_eq!(diagnostics, vec![SemanticDiagnosticKind::NotATrait]);
    assert_eq!(resolve_trait_path(&mut diagnostics, Ok(ResolvedGenericItem::Other)), Err(DiagnosticAdded));
    assert_eq!(diagnostics.len(), 2);
    assert_eq!(resolve_trait_path(&mut diagnostics, Err(DiagnosticAdded)), Err(DiagnosticAdded));
    assert_eq!(diagnostics.len(), 2);
}
