//! Validation and assembly of a filter definition from block directives.
//!
//! Each statement of a block arrives as its list of tokens, the directive
//! name first. Statements are applied in source order; the first invalid one
//! rejects the whole block.

use vstd::prelude::*;
use vstd::string::StringSliceAdditionalSpecFns;

use crate::bytes::{bytes_eq, copy_bytes};
use crate::errors::{ConfigError, ErrView};
use crate::regex_support::{regex_compile_result, RegexView};
use crate::rules::{
    default_def, ArgsFilterDef, DefView, InitialPolicy, MatcherView, RuleAction, RuleView,
};

verus! {

/// ASCII `$`, the control sigil that starts a variable name.
pub const SIGIL: u8 = 36;

/// Whether a byte may appear in a variable name after the sigil.
pub open spec fn is_name_byte(b: u8) -> bool {
    ('a' as u8) <= b <= ('z' as u8) || ('A' as u8) <= b <= ('Z' as u8) || ('0' as u8) <= b <= (
    '9' as u8) || b == ('_' as u8)
}

/// ASCII lowercasing of one byte.
pub open spec fn spec_lower_byte(b: u8) -> u8 {
    if ('A' as u8) <= b <= ('Z' as u8) {
        (b + 32) as u8
    } else {
        b
    }
}

/// ASCII lowercasing of a byte sequence.
pub open spec fn spec_lower(s: Seq<u8>) -> Seq<u8> {
    s.map_values(|b: u8| spec_lower_byte(b))
}

/// The normalized variable name a raw block argument yields, or the error
/// rejecting it: the argument must be the sigil followed by one or more
/// alphanumeric or `_` bytes, and is lowercased.
pub open spec fn spec_parse_variable_name(raw: Seq<u8>) -> Result<Seq<u8>, ErrView> {
    if raw.len() == 0 || raw[0] != SIGIL {
        Err(ErrView::VariableMissingDollar)
    } else if raw.len() == 1 {
        Err(ErrView::VariableNameEmpty)
    } else if !(forall|i: int| 1 <= i < raw.len() ==> is_name_byte(#[trigger] raw[i])) {
        Err(ErrView::VariableNameInvalidChars)
    } else {
        Ok(spec_lower(raw.skip(1)))
    }
}

/// What an `initial` statement does to a definition.
pub open spec fn spec_apply_initial(d: DefView, args: Seq<Seq<u8>>) -> Result<DefView, ErrView> {
    if args.len() != 2 {
        Err(ErrView::InitialArity)
    } else if d.initial_set {
        Err(ErrView::DuplicateInitial)
    } else if args[1] == "all".spec_bytes() {
        Ok(DefView { initial: InitialPolicy::KeepAll, initial_set: true, ..d })
    } else if args[1] == "none".spec_bytes() {
        Ok(DefView { initial: InitialPolicy::KeepNone, initial_set: true, ..d })
    } else {
        Err(ErrView::InitialBadValue)
    }
}

/// The definition `d` with one rule appended.
pub open spec fn spec_push_rule(d: DefView, action: RuleAction, matcher: MatcherView) -> DefView {
    DefView { rules: d.rules.push(RuleView { action, matcher }), ..d }
}

/// What an `include` or `exclude` statement does to a definition: one value
/// argument appends a literal rule; two value arguments demand a `~` or `~*`
/// operator and a pattern that compiles, and append a regex rule.
pub open spec fn spec_apply_rule_directive(
    d: DefView,
    args: Seq<Seq<u8>>,
    action: RuleAction,
    arity_err: ErrView,
    operator_err: ErrView,
) -> Result<DefView, ErrView> {
    if args.len() != 2 && args.len() != 3 {
        Err(arity_err)
    } else if args.len() == 2 {
        Ok(spec_push_rule(d, action, MatcherView::Literal(args[1])))
    } else {
        let case_insensitive = if args[1] == "~".spec_bytes() {
            Some(false)
        } else if args[1] == "~*".spec_bytes() {
            Some(true)
        } else {
            None
        };
        match case_insensitive {
            Some(ci) => match regex_compile_result(args[2], ci) {
                None => Ok(
                    spec_push_rule(
                        d,
                        action,
                        MatcherView::Regex(RegexView { pattern: args[2], case_insensitive: ci }),
                    ),
                ),
                Some(diag) => Err(ErrView::RegexCompile(diag)),
            },
            None => Err(operator_err),
        }
    }
}

/// What a `volatile` statement does to a definition.
pub open spec fn spec_apply_volatile(d: DefView, args: Seq<Seq<u8>>) -> Result<DefView, ErrView> {
    if args.len() != 1 {
        Err(ErrView::VolatileArity)
    } else {
        Ok(DefView { volatile: true, ..d })
    }
}

/// What one statement does to a definition, dispatched on the directive name.
pub open spec fn spec_apply_directive(d: DefView, args: Seq<Seq<u8>>) -> Result<DefView, ErrView> {
    if args.len() == 0 {
        Err(ErrView::UnknownDirective)
    } else if args[0] == "initial".spec_bytes() {
        spec_apply_initial(d, args)
    } else if args[0] == "include".spec_bytes() {
        spec_apply_rule_directive(
            d,
            args,
            RuleAction::Include,
            ErrView::IncludeArity,
            ErrView::IncludeBadOperator,
        )
    } else if args[0] == "exclude".spec_bytes() {
        spec_apply_rule_directive(
            d,
            args,
            RuleAction::Exclude,
            ErrView::ExcludeArity,
            ErrView::ExcludeBadOperator,
        )
    } else if args[0] == "volatile".spec_bytes() {
        spec_apply_volatile(d, args)
    } else {
        Err(ErrView::UnknownDirective)
    }
}

/// The definition a sequence of statements builds on top of `d`, or the first
/// error raised.
pub open spec fn spec_compile_from(d: DefView, stmts: Seq<Seq<Seq<u8>>>) -> Result<
    DefView,
    ErrView,
>
    decreases stmts.len(),
{
    if stmts.len() == 0 {
        Ok(d)
    } else {
        match spec_apply_directive(d, stmts.first()) {
            Ok(d2) => spec_compile_from(d2, stmts.drop_first()),
            Err(e) => Err(e),
        }
    }
}

/// The definition a whole block of statements builds, or the first error.
pub open spec fn spec_compile_block(stmts: Seq<Seq<Seq<u8>>>) -> Result<DefView, ErrView> {
    spec_compile_from(default_def(), stmts)
}

/// An exec mutation-and-result pair agrees with its specified outcome: on
/// success the definition becomes the specified one, on error it is unchanged
/// and the error is the specified one.
pub open spec fn obeys_apply(
    old_d: DefView,
    new_d: DefView,
    r: Result<(), ConfigError>,
    spec_r: Result<DefView, ErrView>,
) -> bool {
    &&& (r is Ok) == (spec_r is Ok)
    &&& (r is Ok ==> new_d == spec_r->Ok_0)
    &&& (r is Err ==> new_d == old_d && r->Err_0@ == spec_r->Err_0)
}

/// Whether a byte may appear in a variable name after the sigil.
fn name_byte(b: u8) -> (r: bool)
    ensures
        r == is_name_byte(b),
{
    (b >= 'a' as u8 && b <= 'z' as u8) || (b >= 'A' as u8 && b <= 'Z' as u8) || (b >= '0' as u8 && b
        <= '9' as u8) || b == '_' as u8
}

/// ASCII lowercasing of one byte.
fn lower_byte(b: u8) -> (r: u8)
    ensures
        r == spec_lower_byte(b),
{
    if b >= 'A' as u8 && b <= 'Z' as u8 {
        b + 32
    } else {
        b
    }
}

/// Validate a raw block argument as a variable name and normalize it to
/// lowercase.
pub fn parse_variable_name(raw: &[u8]) -> (r: Result<Vec<u8>, ConfigError>)
    ensures
        (r is Ok) == (spec_parse_variable_name(raw@) is Ok),
        r is Ok ==> r->Ok_0@ == spec_parse_variable_name(raw@)->Ok_0,
        r is Err ==> r->Err_0@ == spec_parse_variable_name(raw@)->Err_0,
{
    if raw.len() == 0 || raw[0] != SIGIL {
        return Err(ConfigError::VariableMissingDollar);
    }
    if raw.len() == 1 {
        return Err(ConfigError::VariableNameEmpty);
    }
    let mut out: Vec<u8> = Vec::new();
    let mut i: usize = 1;
    proof {
        assert(out@ =~= spec_lower(raw@.subrange(1, 1)));
    }
    while i < raw.len()
        invariant
            1 <= i <= raw@.len(),
            raw@.len() > 1,
            raw@[0] == SIGIL,
            forall|j: int| 1 <= j < i ==> is_name_byte(#[trigger] raw@[j]),
            out@ == spec_lower(raw@.subrange(1, i as int)),
        decreases raw@.len() - i,
    {
        let b = raw[i];
        if !name_byte(b) {
            proof {
                assert(!is_name_byte(raw@[i as int]));
                assert(!(forall|j: int| 1 <= j < raw@.len() ==> is_name_byte(#[trigger] raw@[j])));
            }
            return Err(ConfigError::VariableNameInvalidChars);
        }
        out.push(lower_byte(b));
        proof {
            assert(spec_lower(raw@.subrange(1, i + 1)) =~= spec_lower(
                raw@.subrange(1, i as int),
            ).push(spec_lower_byte(raw@[i as int])));
        }
        i += 1;
    }
    proof {
        assert(raw@.subrange(1, raw@.len() as int) =~= raw@.skip(1));
    }
    Ok(out)
}

/// Apply an `initial` statement to a definition.
pub fn apply_initial(def: &mut ArgsFilterDef, args: &[Vec<u8>]) -> (r: Result<(), ConfigError>)
    ensures
        obeys_apply(old(def)@, final(def)@, r, spec_apply_initial(old(def)@, args.deep_view())),
{
    if args.len() != 2 {
        return Err(ConfigError::InitialArity);
    }
    if def.initial_set {
        return Err(ConfigError::DuplicateInitial);
    }
    proof {
        assert(args.deep_view()[1] == args@[1]@);
    }
    let value = args[1].as_slice();
    if bytes_eq(value, "all".as_bytes()) {
        def.initial = InitialPolicy::KeepAll;
    } else if bytes_eq(value, "none".as_bytes()) {
        def.initial = InitialPolicy::KeepNone;
    } else {
        return Err(ConfigError::InitialBadValue);
    }
    def.initial_set = true;
    Ok(())
}

/// Apply an `include` or `exclude` statement to a definition.
fn apply_rule_directive(
    def: &mut ArgsFilterDef,
    args: &[Vec<u8>],
    adds: bool,
) -> (r: Result<(), ConfigError>)
    ensures
        adds ==> obeys_apply(
            old(def)@,
            final(def)@,
            r,
            spec_apply_rule_directive(
                old(def)@,
                args.deep_view(),
                RuleAction::Include,
                ErrView::IncludeArity,
                ErrView::IncludeBadOperator,
            ),
        ),
        !adds ==> obeys_apply(
            old(def)@,
            final(def)@,
            r,
            spec_apply_rule_directive(
                old(def)@,
                args.deep_view(),
                RuleAction::Exclude,
                ErrView::ExcludeArity,
                ErrView::ExcludeBadOperator,
            ),
        ),
{
    if args.len() != 2 && args.len() != 3 {
        if adds {
            return Err(ConfigError::IncludeArity);
        } else {
            return Err(ConfigError::ExcludeArity);
        }
    }
    proof {
        assert(args.deep_view()[1] == args@[1]@);
    }
    if args.len() == 2 {
        let key = copy_bytes(args[1].as_slice());
        if adds {
            def.add_include_literal(key);
        } else {
            def.add_exclude_literal(key);
        }
        return Ok(());
    }
    proof {
        assert(args.deep_view()[2] == args@[2]@);
    }
    let op = args[1].as_slice();
    let case_insensitive: bool;
    if bytes_eq(op, "~".as_bytes()) {
        case_insensitive = false;
    } else if bytes_eq(op, "~*".as_bytes()) {
        case_insensitive = true;
    } else {
        if adds {
            return Err(ConfigError::IncludeBadOperator);
        } else {
            return Err(ConfigError::ExcludeBadOperator);
        }
    }
    let pattern = args[2].as_slice();
    let compiled = if adds {
        def.add_include_regex(pattern, case_insensitive)
    } else {
        def.add_exclude_regex(pattern, case_insensitive)
    };
    match compiled {
        Ok(()) => Ok(()),
        Err(diag) => Err(ConfigError::RegexCompile(diag)),
    }
}

/// Apply an `include` statement to a definition.
pub fn apply_include(def: &mut ArgsFilterDef, args: &[Vec<u8>]) -> (r: Result<(), ConfigError>)
    ensures
        obeys_apply(
            old(def)@,
            final(def)@,
            r,
            spec_apply_rule_directive(
                old(def)@,
                args.deep_view(),
                RuleAction::Include,
                ErrView::IncludeArity,
                ErrView::IncludeBadOperator,
            ),
        ),
{
    apply_rule_directive(def, args, true)
}

/// Apply an `exclude` statement to a definition.
pub fn apply_exclude(def: &mut ArgsFilterDef, args: &[Vec<u8>]) -> (r: Result<(), ConfigError>)
    ensures
        obeys_apply(
            old(def)@,
            final(def)@,
            r,
            spec_apply_rule_directive(
                old(def)@,
                args.deep_view(),
                RuleAction::Exclude,
                ErrView::ExcludeArity,
                ErrView::ExcludeBadOperator,
            ),
        ),
{
    apply_rule_directive(def, args, false)
}

/// Apply a `volatile` statement to a definition.
pub fn apply_volatile(def: &mut ArgsFilterDef, args: &[Vec<u8>]) -> (r: Result<(), ConfigError>)
    ensures
        obeys_apply(old(def)@, final(def)@, r, spec_apply_volatile(old(def)@, args.deep_view())),
{
    if args.len() != 1 {
        return Err(ConfigError::VolatileArity);
    }
    def.volatile = true;
    Ok(())
}

/// Apply one statement to a definition, dispatching on the directive name.
pub fn apply_directive(def: &mut ArgsFilterDef, args: &[Vec<u8>]) -> (r: Result<(), ConfigError>)
    ensures
        obeys_apply(old(def)@, final(def)@, r, spec_apply_directive(old(def)@, args.deep_view())),
{
    if args.len() == 0 {
        return Err(ConfigError::UnknownDirective);
    }
    proof {
        assert(args.deep_view()[0] == args@[0]@);
    }
    let name = args[0].as_slice();
    if bytes_eq(name, "initial".as_bytes()) {
        apply_initial(def, args)
    } else if bytes_eq(name, "include".as_bytes()) {
        apply_include(def, args)
    } else if bytes_eq(name, "exclude".as_bytes()) {
        apply_exclude(def, args)
    } else if bytes_eq(name, "volatile".as_bytes()) {
        apply_volatile(def, args)
    } else {
        Err(ConfigError::UnknownDirective)
    }
}

/// Build a filter definition from a block's statements, fed in source order.
/// The first invalid statement rejects the block.
pub fn compile_block(statements: &[Vec<Vec<u8>>]) -> (r: Result<ArgsFilterDef, ConfigError>)
    ensures
        (r is Ok) == (spec_compile_block(statements.deep_view()) is Ok),
        r is Ok ==> r->Ok_0@ == spec_compile_block(statements.deep_view())->Ok_0,
        r is Err ==> r->Err_0@ == spec_compile_block(statements.deep_view())->Err_0,
{
    let ghost stmts = statements.deep_view();
    let mut def = ArgsFilterDef::new();
    let mut si: usize = 0;
    proof {
        assert(stmts.skip(0) =~= stmts);
    }
    while si < statements.len()
        invariant
            stmts == statements.deep_view(),
            stmts.len() == statements@.len(),
            0 <= si <= statements@.len(),
            spec_compile_from(default_def(), stmts) == spec_compile_from(
                def@,
                stmts.skip(si as int),
            ),
        decreases statements@.len() - si,
    {
        let ghost def_old = def@;
        let stmt = statements[si].as_slice();
        proof {
            assert(stmt.deep_view() =~= stmts[si as int]);
            assert(stmts.skip(si as int).first() == stmts[si as int]);
            assert(stmts.skip(si as int).drop_first() =~= stmts.skip(si + 1));
        }
        let step = apply_directive(&mut def, stmt);
        match step {
            Ok(()) => {},
            Err(e) => {
                proof {
                    assert(spec_compile_from(def_old, stmts.skip(si as int)) == Err::<
                        DefView,
                        ErrView,
                    >(e@));
                }
                return Err(e);
            },
        }
        si += 1;
    }
    proof {
        assert(stmts.skip(statements@.len() as int) =~= Seq::<Seq<Seq<u8>>>::empty());
    }
    Ok(def)
}

} // verus!
