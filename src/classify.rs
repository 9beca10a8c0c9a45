//! Handler argument classification: which parameters come from shared
//! state and which from the request, and the generic placeholders,
//! constraints and forwarding call that follow from that.

use vstd::prelude::*;
use crate::text::copy_str;

verus! {

/// A typed handler parameter: its pattern, its declared type, and whether it
/// carries the `state` marker.
#[derive(Debug, Clone, PartialEq, Eq)]
pub struct TypedParam {
    pub pattern: String,
    pub ty: String,
    pub is_state: bool,
}

/// A handler parameter as declared.
#[derive(Debug, Clone, PartialEq, Eq)]
pub enum FnParam {
    /// A `self` receiver, which handlers may not have.
    Receiver,
    Typed(TypedParam),
}

/// A state-marked parameter: its position and declared type. It is given the
/// placeholder type `State{index}`, from which the declared type is derived.
#[derive(Debug, Clone, PartialEq, Eq)]
pub struct StateParam {
    pub index: usize,
    pub ty: String,
}

/// One parameter of the generated stateful handler, bound to `arg{index}`.
#[derive(Debug, Clone, PartialEq, Eq)]
pub enum HandlerArg {
    /// Extracted from the request as the declared type.
    Request { index: usize, ty: String },
    /// Extracted from the shared state as the declared type.
    State { index: usize, ty: String },
}

/// A constraint on the placeholder `State{index}`.
#[derive(Debug, Clone, PartialEq, Eq)]
pub enum WherePredicate {
    /// The declared type `ty` is obtainable from `State{index}`.
    FromState { ty: String, index: usize },
    /// `State{index}` is cloneable, shareable across threads and `'static`.
    Shareable { index: usize },
}

/// The classifier's output for one handler.
#[derive(Debug, Clone, PartialEq, Eq)]
pub struct ClassifiedArgs {
    /// The state-marked parameters, in order: one generic placeholder each.
    pub state_params: Vec<StateParam>,
    /// The stateful handler's parameters, one per handler parameter.
    pub handler_args: Vec<HandlerArg>,
    /// The forwarding call's arguments: `arg{i}` for each position `i`.
    pub forward_args: Vec<usize>,
}

/// Why a handler's parameter list was rejected.
#[derive(Debug, Clone, PartialEq, Eq)]
pub enum ClassifyError {
    /// The parameter at this position is a `self` receiver.
    ReceiverNotSupported(usize),
}

// ---- mathematical model ----

pub struct TypedParamView {
    pub pattern: Seq<char>,
    pub ty: Seq<char>,
    pub is_state: bool,
}

pub struct StateParamView {
    pub index: nat,
    pub ty: Seq<char>,
}

pub enum HandlerArgView {
    Request { index: nat, ty: Seq<char> },
    State { index: nat, ty: Seq<char> },
}

pub enum WherePredicateView {
    FromState { ty: Seq<char>, index: nat },
    Shareable { index: nat },
}

impl View for TypedParam {
    type V = TypedParamView;

    open spec fn view(&self) -> TypedParamView {
        TypedParamView { pattern: self.pattern@, ty: self.ty@, is_state: self.is_state }
    }
}

impl View for StateParam {
    type V = StateParamView;

    open spec fn view(&self) -> StateParamView {
        StateParamView { index: self.index as nat, ty: self.ty@ }
    }
}

impl View for HandlerArg {
    type V = HandlerArgView;

    open spec fn view(&self) -> HandlerArgView {
        match self {
            HandlerArg::Request { index, ty } => HandlerArgView::Request { index: *index as nat, ty: ty@ },
            HandlerArg::State { index, ty } => HandlerArgView::State { index: *index as nat, ty: ty@ },
        }
    }
}

impl View for WherePredicate {
    type V = WherePredicateView;

    open spec fn view(&self) -> WherePredicateView {
        match self {
            WherePredicate::FromState { ty, index } => WherePredicateView::FromState { ty: ty@, index: *index as nat },
            WherePredicate::Shareable { index } => WherePredicateView::Shareable { index: *index as nat },
        }
    }
}

/// `p` is a typed parameter with model `t`.
pub open spec fn param_is(p: FnParam, t: TypedParamView) -> bool {
    match p {
        FnParam::Typed(x) => x@ == t,
        FnParam::Receiver => false,
    }
}

pub open spec fn typed_view(ps: Seq<TypedParam>) -> Seq<TypedParamView> {
    ps.map_values(|p: TypedParam| p@)
}

/// The state-marked parameters of `ps`, with their positions, in order.
pub open spec fn state_params_of(ps: Seq<TypedParamView>) -> Seq<StateParamView>
    decreases ps.len(),
{
    if ps.len() == 0 {
        Seq::empty()
    } else if ps.last().is_state {
        state_params_of(ps.drop_last()).push(StateParamView { index: (ps.len() - 1) as nat, ty: ps.last().ty })
    } else {
        state_params_of(ps.drop_last())
    }
}

/// How many of `ps` are state-marked.
pub open spec fn state_count(ps: Seq<TypedParamView>) -> nat
    decreases ps.len(),
{
    if ps.len() == 0 {
        0
    } else {
        state_count(ps.drop_last()) + if ps.last().is_state { 1nat } else { 0nat }
    }
}

/// The stateful handler's parameter at position `i`.
pub open spec fn handler_arg_of(i: nat, p: TypedParamView) -> HandlerArgView {
    if p.is_state {
        HandlerArgView::State { index: i, ty: p.ty }
    } else {
        HandlerArgView::Request { index: i, ty: p.ty }
    }
}

/// The two constraints on each placeholder, in order.
pub open spec fn where_predicates_of(sps: Seq<StateParamView>) -> Seq<WherePredicateView>
    decreases sps.len(),
{
    if sps.len() == 0 {
        Seq::empty()
    } else {
        where_predicates_of(sps.drop_last()).push(
            WherePredicateView::FromState { ty: sps.last().ty, index: sps.last().index },
        ).push(WherePredicateView::Shareable { index: sps.last().index })
    }
}

/// What the classifier gives for `ps`.
pub open spec fn classified(ps: Seq<TypedParamView>, c: ClassifiedArgs) -> bool {
    &&& c.state_params@.map_values(|s: StateParam| s@) == state_params_of(ps)
    &&& c.handler_args@.len() == ps.len()
    &&& forall|i: int| 0 <= i < ps.len() ==> (#[trigger] c.handler_args@[i])@ == handler_arg_of(i as nat, ps[i])
    &&& c.forward_args@.len() == ps.len()
    &&& forall|i: int| 0 <= i < ps.len() ==> #[trigger] c.forward_args@[i] == i
}

pub proof fn lemma_state_params_len(ps: Seq<TypedParamView>)
    ensures
        state_params_of(ps).len() == state_count(ps),
        state_count(ps) <= ps.len(),
    decreases ps.len(),
{
    if ps.len() > 0 {
        lemma_state_params_len(ps.drop_last());
    }
}

pub proof fn lemma_where_len(sps: Seq<StateParamView>)
    ensures
        where_predicates_of(sps).len() == 2 * sps.len(),
    decreases sps.len(),
{
    if sps.len() > 0 {
        lemma_where_len(sps.drop_last());
    }
}

/// The typed parameters, or the position of the first `self` receiver.
pub fn typed_params(params: &Vec<FnParam>) -> (r: Result<Vec<TypedParam>, ClassifyError>)
    ensures
        match r {
            Ok(ts) => ts@.len() == params@.len() && forall|i: int|
                0 <= i < params@.len() ==> param_is(#[trigger] params@[i], ts@[i]@),
            Err(ClassifyError::ReceiverNotSupported(k)) => k < params@.len() && params@[k as int] is Receiver
                && forall|i: int| 0 <= i < k ==> !(#[trigger] params@[i] is Receiver),
        },
{
    let mut ts: Vec<TypedParam> = Vec::new();
    let mut i: usize = 0;
    while i < params.len()
        invariant
            i <= params.len(),
            ts@.len() == i,
            forall|j: int| 0 <= j < i ==> param_is(#[trigger] params@[j], ts@[j]@),
        decreases params.len() - i,
    {
        match &params[i] {
            FnParam::Receiver => {
                return Err(ClassifyError::ReceiverNotSupported(i));
            },
            FnParam::Typed(t) => {
                ts.push(TypedParam { pattern: copy_str(t.pattern.as_str()), ty: copy_str(t.ty.as_str()), is_state: t.is_state });
            },
        }
        i = i + 1;
    }
    Ok(ts)
}

/// Splits the parameters into state-extracted and request-extracted ones and
/// builds the placeholder list, the stateful handler's parameters and the
/// forwarding call, all in the parameters' original order.
pub fn classify(params: &Vec<TypedParam>) -> (r: ClassifiedArgs)
    ensures
        classified(typed_view(params@), r),
{
    let ghost ps = typed_view(params@);
    let mut state_params: Vec<StateParam> = Vec::new();
    let mut handler_args: Vec<HandlerArg> = Vec::new();
    let mut forward_args: Vec<usize> = Vec::new();
    let mut i: usize = 0;
    while i < params.len()
        invariant
            i <= params.len(),
            ps == typed_view(params@),
            state_params@.map_values(|s: StateParam| s@) == state_params_of(ps.subrange(0, i as int)),
            handler_args@.len() == i,
            forall|j: int| 0 <= j < i ==> (#[trigger] handler_args@[j])@ == handler_arg_of(j as nat, ps[j]),
            forward_args@.len() == i,
            forall|j: int| 0 <= j < i ==> #[trigger] forward_args@[j] == j,
        decreases params.len() - i,
    {
        let p = &params[i];
        proof {
            let q = ps.subrange(0, i as int + 1);
            assert(q.drop_last() =~= ps.subrange(0, i as int));
            assert(q.last() == p@);
        }
        if p.is_state {
            let ghost prev = state_params@.map_values(|s: StateParam| s@);
            state_params.push(StateParam { index: i, ty: copy_str(p.ty.as_str()) });
            assert(state_params@.map_values(|s: StateParam| s@) =~= prev.push(
                StateParamView { index: i as nat, ty: p.ty@ },
            ));
            handler_args.push(HandlerArg::State { index: i, ty: copy_str(p.ty.as_str()) });
        } else {
            handler_args.push(HandlerArg::Request { index: i, ty: copy_str(p.ty.as_str()) });
        }
        forward_args.push(i);
        i = i + 1;
    }
    assert(ps.subrange(0, params.len() as int) =~= ps);
    ClassifiedArgs { state_params, handler_args, forward_args }
}

/// The constraints on the placeholders: for each state parameter, that its
/// declared type is obtainable from `State{index}`, then that `State{index}`
/// is shareable.
pub fn where_predicates(sps: &Vec<StateParam>) -> (r: Vec<WherePredicate>)
    ensures
        r@.map_values(|w: WherePredicate| w@) == where_predicates_of(sps@.map_values(|s: StateParam| s@)),
{
    let ghost sv = sps@.map_values(|s: StateParam| s@);
    let mut r: Vec<WherePredicate> = Vec::new();
    let mut i: usize = 0;
    while i < sps.len()
        invariant
            i <= sps.len(),
            sv == sps@.map_values(|s: StateParam| s@),
            r@.map_values(|w: WherePredicate| w@) == where_predicates_of(sv.subrange(0, i as int)),
        decreases sps.len() - i,
    {
        proof {
            let q = sv.subrange(0, i as int + 1);
            assert(q.drop_last() =~= sv.subrange(0, i as int));
        }
        let ghost prev = r@.map_values(|w: WherePredicate| w@);
        let s = &sps[i];
        r.push(WherePredicate::FromState { ty: copy_str(s.ty.as_str()), index: s.index });
        r.push(WherePredicate::Shareable { index: s.index });
        assert(r@.map_values(|w: WherePredicate| w@) =~= where_predicates_of(sv.subrange(0, i as int + 1)));
        i = i + 1;
    }
    assert(sv.subrange(0, sps.len() as int) =~= sv);
    r
}

/// A handler with no state-marked parameters gets no placeholders and no
/// constraints.
pub proof fn lemma_stateless_handler(ps: Seq<TypedParamView>, c: ClassifiedArgs)
    requires
        classified(ps, c),
        forall|i: int| 0 <= i < ps.len() ==> !(#[trigger] ps[i]).is_state,
    ensures
        c.state_params@.len() == 0,
        where_predicates_of(c.state_params@.map_values(|s: StateParam| s@)).len() == 0,
{
    lemma_no_state_count(ps);
    lemma_state_params_len(ps);
    assert(c.state_params@.map_values(|s: StateParam| s@).len() == c.state_params@.len());
    lemma_where_len(c.state_params@.map_values(|s: StateParam| s@));
}

pub proof fn lemma_no_state_count(ps: Seq<TypedParamView>)
    requires
        forall|i: int| 0 <= i < ps.len() ==> !(#[trigger] ps[i]).is_state,
    ensures
        state_count(ps) == 0,
    decreases ps.len(),
{
    if ps.len() > 0 {
        assert(ps.last() == ps[ps.len() - 1]);
        lemma_no_state_count(ps.drop_last());
    }
}

/// With k state-marked parameters there are k placeholders (and 2k
/// constraints), and the forwarding call passes every parameter, in order.
pub proof fn lemma_placeholders_and_forwarding(ps: Seq<TypedParamView>, c: ClassifiedArgs)
    requires
        classified(ps, c),
    ensures
        c.state_params@.len() == state_count(ps),
        where_predicates_of(c.state_params@.map_values(|s: StateParam| s@)).len() == 2 * state_count(ps),
        c.forward_args@.len() == ps.len(),
        forall|i: int| 0 <= i < ps.len() ==> #[trigger] c.forward_args@[i] == i,
{
    lemma_state_params_len(ps);
    assert(c.state_params@.map_values(|s: StateParam| s@).len() == c.state_params@.len());
    lemma_where_len(c.state_params@.map_values(|s: StateParam| s@));
}

} // verus!
