use vstd::prelude::*;
use crate::span::Span;

verus! {

/// Notes shown after a diagnostic, in order: text and an optional source span.
pub type DiagNotes = Vec<(String, Option<Span>)>;

/// The diagnostics the analyzer reports.
#[derive(Debug)]
pub enum AnalysisError {
    UndefinedName { name: String, span: Span, did_you_mean: Option<(String, Option<Span>)> },
    TypeMismatch { expected: String, found: String, span: Span, decl_span: Option<Span> },
    ArityMismatch { expected: usize, found: usize, span: Span, fn_span: Option<Span> },
    AssignToImmutable { name: String, span: Span, decl_span: Option<Span> },
    DuplicateName { name: String, span: Span },
    MissingReturn { name: String, span: Span },
    NonExhaustiveMatch { span: Span },
    MissingConformance { ty: String, iface: String, detail: String, span: Span, iface_span: Option<Span> },
    BoundViolation { ty: String, iface: String, context: String, span: Span, notes: Vec<(String, Option<Span>)> },
    PrivateField { field: String, span: Span },
    NoMatchingOverload { name: String, span: Span },
    DuplicateImpl { ty: String, iface: String, span: Span },
    NonObjectSafeInterface { iface: String, method: String, span: Span },
    NoField { ty: String, field: String, span: Span },
    UnknownAnnotation { name: String, span: Span },
    BareFieldAccess { field: String, span: Span },
    DuplicateSignature { name: String, span: Span },
    BoundsOnImplementation { name: String, span: Span },
    MissingImplementation { name: String, span: Span },
    ModuleNotFound { path: String, span: Span },
    SymbolNotExported { symbol: String, module: String, span: Span },
    DivisionByZero { span: Span },
    RedundantMatchArm { message: String, span: Span },
    TautologicalCondition { span: Span },
    ContradictoryCondition { span: Span },
    NonLiteralConst { name: String, span: Span },
    AssignToConst { name: String, span: Span },
    ProcessorFail { msg: String, span: Span },
    ProcessorWarn { msg: String, span: Span },
    UnpinnedAssocTypes { iface: String, unbound: String, span: Span },
    VarianceViolation { container: String, expected: String, found: String, span: Span },
    ProjectedBoundViolation { base_ty: String, base_iface: String, assoc_name: String, assoc_ty: String, required_iface: String, span: Span },
    NotIterable { ty: String, span: Span },
    CyclicInterface { iface: String, cycle: String, span: Span },
    RecursiveTypeWithoutIndirect { ty: String, field: String, span: Span },
    MissingImplementsAnnotation { span: Span },
    UnusedVariable { name: String, span: Span },
    NeedlessMut { name: String, span: Span },
    UnreachableCode { span: Span, terminator_span: Span },
    ThrowsInCleanContext { span: Span },
    ImplementsOnNonInterface { found: String, span: Span },
}

/// The text of one decimal digit.
pub open spec fn digit_text(d: nat) -> Seq<char> {
    if d == 0 {
        "0"@
    } else if d == 1 {
        "1"@
    } else if d == 2 {
        "2"@
    } else if d == 3 {
        "3"@
    } else if d == 4 {
        "4"@
    } else if d == 5 {
        "5"@
    } else if d == 6 {
        "6"@
    } else if d == 7 {
        "7"@
    } else if d == 8 {
        "8"@
    } else {
        "9"@
    }
}

/// The decimal representation of a natural number, without leading zeros.
pub open spec fn decimal(n: nat) -> Seq<char>
    decreases n,
{
    if n < 10 {
        digit_text(n)
    } else {
        decimal(n / 10) + digit_text(n % 10)
    }
}

/// Appends the decimal representation of `n`.
pub fn append_decimal(s: &mut String, n: usize)
    ensures
        final(s)@ == old(s)@ + decimal(n as nat),
    decreases n,
{
    if n >= 10 {
        append_decimal(s, n / 10);
    }
    let d = n % 10;
    let t = if d == 0 {
        "0"
    } else if d == 1 {
        "1"
    } else if d == 2 {
        "2"
    } else if d == 3 {
        "3"
    } else if d == 4 {
        "4"
    } else if d == 5 {
        "5"
    } else if d == 6 {
        "6"
    } else if d == 7 {
        "7"
    } else if d == 8 {
        "8"
    } else {
        "9"
    };
    s.append(t);
    proof {
        assert(t@ == digit_text(d as nat));
        if n >= 10 {
            assert(decimal(n as nat) == decimal((n / 10) as nat) + digit_text((n % 10) as nat));
        }
    }
}

/// The diagnostic code of an error, such as `E001`.
pub open spec fn code_text(e: AnalysisError) -> Seq<char> {
    match e {
        AnalysisError::UndefinedName { .. } => "E001"@,
        AnalysisError::TypeMismatch { .. } => "E002"@,
        AnalysisError::ArityMismatch { .. } => "E002a"@,
        AnalysisError::AssignToImmutable { .. } => "E003"@,
        AnalysisError::DuplicateName { .. } => "E004"@,
        AnalysisError::MissingReturn { .. } => "E005"@,
        AnalysisError::NonExhaustiveMatch { .. } => "E006"@,
        AnalysisError::MissingConformance { .. } => "E007"@,
        AnalysisError::BoundViolation { .. } => "E008"@,
        AnalysisError::PrivateField { .. } => "E009"@,
        AnalysisError::NoMatchingOverload { .. } => "E010"@,
        AnalysisError::DuplicateImpl { .. } => "E011"@,
        AnalysisError::NonObjectSafeInterface { .. } => "E012"@,
        AnalysisError::NoField { .. } => "E013"@,
        AnalysisError::UnknownAnnotation { .. } => "E014"@,
        AnalysisError::BareFieldAccess { .. } => "E015"@,
        AnalysisError::DuplicateSignature { .. } => "E016"@,
        AnalysisError::BoundsOnImplementation { .. } => "E017"@,
        AnalysisError::MissingImplementation { .. } => "E018"@,
        AnalysisError::ModuleNotFound { .. } => "E019"@,
        AnalysisError::SymbolNotExported { .. } => "E020"@,
        AnalysisError::DivisionByZero { .. } => "E021"@,
        AnalysisError::RedundantMatchArm { .. } => "W001"@,
        AnalysisError::TautologicalCondition { .. } => "W002"@,
        AnalysisError::ContradictoryCondition { .. } => "W003"@,
        AnalysisError::NonLiteralConst { .. } => "E022"@,
        AnalysisError::AssignToConst { .. } => "E023"@,
        AnalysisError::ProcessorFail { .. } => "E024"@,
        AnalysisError::ProcessorWarn { .. } => "W004"@,
        AnalysisError::UnpinnedAssocTypes { .. } => "E025"@,
        AnalysisError::VarianceViolation { .. } => "E026"@,
        AnalysisError::ProjectedBoundViolation { .. } => "E027"@,
        AnalysisError::NotIterable { .. } => "E028"@,
        AnalysisError::CyclicInterface { .. } => "E029"@,
        AnalysisError::RecursiveTypeWithoutIndirect { .. } => "E030"@,
        AnalysisError::MissingImplementsAnnotation { .. } => "E031"@,
        AnalysisError::UnusedVariable { .. } => "W005"@,
        AnalysisError::NeedlessMut { .. } => "W006"@,
        AnalysisError::UnreachableCode { .. } => "W007"@,
        AnalysisError::ThrowsInCleanContext { .. } => "E032"@,
        AnalysisError::ImplementsOnNonInterface { .. } => "E033"@,
    }
}

/// The number a diagnostic code stands for: ten times its digits, plus 1000 for a
/// warning and 5 for a trailing letter.
pub open spec fn code_number(c: Seq<char>) -> int {
    (if c[0] == 'W' { 1000int } else { 0int }) + 1000 * (c[1] as int - '0' as int) + 100 * (
    c[2] as int - '0' as int) + 10 * (c[3] as int - '0' as int) + (if c.len() == 5 {
        5int
    } else {
        0int
    })
}

/// Whether two errors are of the same variant.
pub open spec fn same_variant(a: AnalysisError, b: AnalysisError) -> bool {
    match (a, b) {
        (AnalysisError::UndefinedName { .. }, AnalysisError::UndefinedName { .. }) => true,
        (AnalysisError::TypeMismatch { .. }, AnalysisError::TypeMismatch { .. }) => true,
        (AnalysisError::ArityMismatch { .. }, AnalysisError::ArityMismatch { .. }) => true,
        (AnalysisError::AssignToImmutable { .. }, AnalysisError::AssignToImmutable { .. }) => true,
        (AnalysisError::DuplicateName { .. }, AnalysisError::DuplicateName { .. }) => true,
        (AnalysisError::MissingReturn { .. }, AnalysisError::MissingReturn { .. }) => true,
        (AnalysisError::NonExhaustiveMatch { .. }, AnalysisError::NonExhaustiveMatch { .. }) => true,
        (AnalysisError::MissingConformance { .. }, AnalysisError::MissingConformance { .. }) => true,
        (AnalysisError::BoundViolation { .. }, AnalysisError::BoundViolation { .. }) => true,
        (AnalysisError::PrivateField { .. }, AnalysisError::PrivateField { .. }) => true,
        (AnalysisError::NoMatchingOverload { .. }, AnalysisError::NoMatchingOverload { .. }) => true,
        (AnalysisError::DuplicateImpl { .. }, AnalysisError::DuplicateImpl { .. }) => true,
        (AnalysisError::NonObjectSafeInterface { .. }, AnalysisError::NonObjectSafeInterface { .. }) => true,
        (AnalysisError::NoField { .. }, AnalysisError::NoField { .. }) => true,
        (AnalysisError::UnknownAnnotation { .. }, AnalysisError::UnknownAnnotation { .. }) => true,
        (AnalysisError::BareFieldAccess { .. }, AnalysisError::BareFieldAccess { .. }) => true,
        (AnalysisError::DuplicateSignature { .. }, AnalysisError::DuplicateSignature { .. }) => true,
        (AnalysisError::BoundsOnImplementation { .. }, AnalysisError::BoundsOnImplementation { .. }) => true,
        (AnalysisError::MissingImplementation { .. }, AnalysisError::MissingImplementation { .. }) => true,
        (AnalysisError::ModuleNotFound { .. }, AnalysisError::ModuleNotFound { .. }) => true,
        (AnalysisError::SymbolNotExported { .. }, AnalysisError::SymbolNotExported { .. }) => true,
        (AnalysisError::DivisionByZero { .. }, AnalysisError::DivisionByZero { .. }) => true,
        (AnalysisError::RedundantMatchArm { .. }, AnalysisError::RedundantMatchArm { .. }) => true,
        (AnalysisError::TautologicalCondition { .. }, AnalysisError::TautologicalCondition { .. }) => true,
        (AnalysisError::ContradictoryCondition { .. }, AnalysisError::ContradictoryCondition { .. }) => true,
        (AnalysisError::NonLiteralConst { .. }, AnalysisError::NonLiteralConst { .. }) => true,
        (AnalysisError::AssignToConst { .. }, AnalysisError::AssignToConst { .. }) => true,
        (AnalysisError::ProcessorFail { .. }, AnalysisError::ProcessorFail { .. }) => true,
        (AnalysisError::ProcessorWarn { .. }, AnalysisError::ProcessorWarn { .. }) => true,
        (AnalysisError::UnpinnedAssocTypes { .. }, AnalysisError::UnpinnedAssocTypes { .. }) => true,
        (AnalysisError::VarianceViolation { .. }, AnalysisError::VarianceViolation { .. }) => true,
        (AnalysisError::ProjectedBoundViolation { .. }, AnalysisError::ProjectedBoundViolation { .. }) => true,
        (AnalysisError::NotIterable { .. }, AnalysisError::NotIterable { .. }) => true,
        (AnalysisError::CyclicInterface { .. }, AnalysisError::CyclicInterface { .. }) => true,
        (AnalysisError::RecursiveTypeWithoutIndirect { .. }, AnalysisError::RecursiveTypeWithoutIndirect { .. }) => true,
        (AnalysisError::MissingImplementsAnnotation { .. }, AnalysisError::MissingImplementsAnnotation { .. }) => true,
        (AnalysisError::UnusedVariable { .. }, AnalysisError::UnusedVariable { .. }) => true,
        (AnalysisError::NeedlessMut { .. }, AnalysisError::NeedlessMut { .. }) => true,
        (AnalysisError::UnreachableCode { .. }, AnalysisError::UnreachableCode { .. }) => true,
        (AnalysisError::ThrowsInCleanContext { .. }, AnalysisError::ThrowsInCleanContext { .. }) => true,
        (AnalysisError::ImplementsOnNonInterface { .. }, AnalysisError::ImplementsOnNonInterface { .. }) => true,
        _ => false,
    }
}

/// The number of the code of each variant.
spec fn variant_number(e: AnalysisError) -> int {
    match e {
        AnalysisError::UndefinedName { .. } => 10,
        AnalysisError::TypeMismatch { .. } => 20,
        AnalysisError::ArityMismatch { .. } => 25,
        AnalysisError::AssignToImmutable { .. } => 30,
        AnalysisError::DuplicateName { .. } => 40,
        AnalysisError::MissingReturn { .. } => 50,
        AnalysisError::NonExhaustiveMatch { .. } => 60,
        AnalysisError::MissingConformance { .. } => 70,
        AnalysisError::BoundViolation { .. } => 80,
        AnalysisError::PrivateField { .. } => 90,
        AnalysisError::NoMatchingOverload { .. } => 100,
        AnalysisError::DuplicateImpl { .. } => 110,
        AnalysisError::NonObjectSafeInterface { .. } => 120,
        AnalysisError::NoField { .. } => 130,
        AnalysisError::UnknownAnnotation { .. } => 140,
        AnalysisError::BareFieldAccess { .. } => 150,
        AnalysisError::DuplicateSignature { .. } => 160,
        AnalysisError::BoundsOnImplementation { .. } => 170,
        AnalysisError::MissingImplementation { .. } => 180,
        AnalysisError::ModuleNotFound { .. } => 190,
        AnalysisError::SymbolNotExported { .. } => 200,
        AnalysisError::DivisionByZero { .. } => 210,
        AnalysisError::RedundantMatchArm { .. } => 1010,
        AnalysisError::TautologicalCondition { .. } => 1020,
        AnalysisError::ContradictoryCondition { .. } => 1030,
        AnalysisError::NonLiteralConst { .. } => 220,
        AnalysisError::AssignToConst { .. } => 230,
        AnalysisError::ProcessorFail { .. } => 240,
        AnalysisError::ProcessorWarn { .. } => 1040,
        AnalysisError::UnpinnedAssocTypes { .. } => 250,
        AnalysisError::VarianceViolation { .. } => 260,
        AnalysisError::ProjectedBoundViolation { .. } => 270,
        AnalysisError::NotIterable { .. } => 280,
        AnalysisError::CyclicInterface { .. } => 290,
        AnalysisError::RecursiveTypeWithoutIndirect { .. } => 300,
        AnalysisError::MissingImplementsAnnotation { .. } => 310,
        AnalysisError::UnusedVariable { .. } => 1050,
        AnalysisError::NeedlessMut { .. } => 1060,
        AnalysisError::UnreachableCode { .. } => 1070,
        AnalysisError::ThrowsInCleanContext { .. } => 320,
        AnalysisError::ImplementsOnNonInterface { .. } => 330,
    }
}

proof fn lemma_code_facts(e: AnalysisError)
    ensures
        code_text(e).len() >= 4,
        code_number(code_text(e)) == variant_number(e),
        (code_text(e)[0] == 'W') == (kind_text(e) == "warning"@),
{
    reveal_strlit("warning");
    assert("warning"@.len() == 7);
    match e {
        AnalysisError::UndefinedName { .. } => {
            reveal_strlit("E001");
            reveal_strlit("name error");
            assert("name error"@.len() == 10);
        },
        AnalysisError::TypeMismatch { .. } => {
            reveal_strlit("E002");
            reveal_strlit("type error");
            assert("type error"@.len() == 10);
        },
        AnalysisError::ArityMismatch { .. } => {
            reveal_strlit("E002a");
            reveal_strlit("type error");
            assert("type error"@.len() == 10);
        },
        AnalysisError::AssignToImmutable { .. } => {
            reveal_strlit("E003");
            reveal_strlit("mutability error");
            assert("mutability error"@.len() == 16);
        },
        AnalysisError::DuplicateName { .. } => {
            reveal_strlit("E004");
            reveal_strlit("name error");
            assert("name error"@.len() == 10);
        },
        AnalysisError::MissingReturn { .. } => {
            reveal_strlit("E005");
            reveal_strlit("control flow error");
            assert("control flow error"@.len() == 18);
        },
        AnalysisError::NonExhaustiveMatch { .. } => {
            reveal_strlit("E006");
            reveal_strlit("exhaustiveness error");
            assert("exhaustiveness error"@.len() == 20);
        },
        AnalysisError::MissingConformance { .. } => {
            reveal_strlit("E007");
            reveal_strlit("conformance error");
            assert("conformance error"@.len() == 17);
        },
        AnalysisError::BoundViolation { .. } => {
            reveal_strlit("E008");
            reveal_strlit("type error");
            assert("type error"@.len() == 10);
        },
        AnalysisError::PrivateField { .. } => {
            reveal_strlit("E009");
            reveal_strlit("visibility error");
            assert("visibility error"@.len() == 16);
        },
        AnalysisError::NoMatchingOverload { .. } => {
            reveal_strlit("E010");
            reveal_strlit("type error");
            assert("type error"@.len() == 10);
        },
        AnalysisError::DuplicateImpl { .. } => {
            reveal_strlit("E011");
            reveal_strlit("impl error");
            assert("impl error"@.len() == 10);
        },
        AnalysisError::NonObjectSafeInterface { .. } => {
            reveal_strlit("E012");
            reveal_strlit("object safety error");
            assert("object safety error"@.len() == 19);
        },
        AnalysisError::NoField { .. } => {
            reveal_strlit("E013");
            reveal_strlit("type error");
            assert("type error"@.len() == 10);
        },
        AnalysisError::UnknownAnnotation { .. } => {
            reveal_strlit("E014");
            reveal_strlit("annotation error");
            assert("annotation error"@.len() == 16);
        },
        AnalysisError::BareFieldAccess { .. } => {
            reveal_strlit("E015");
            reveal_strlit("name error");
            assert("name error"@.len() == 10);
        },
        AnalysisError::DuplicateSignature { .. } => {
            reveal_strlit("E016");
            reveal_strlit("name error");
            assert("name error"@.len() == 10);
        },
        AnalysisError::BoundsOnImplementation { .. } => {
            reveal_strlit("E017");
            reveal_strlit("declaration error");
            assert("declaration error"@.len() == 17);
        },
        AnalysisError::MissingImplementation { .. } => {
            reveal_strlit("E018");
            reveal_strlit("declaration error");
            assert("declaration error"@.len() == 17);
        },
        AnalysisError::ModuleNotFound { .. } => {
            reveal_strlit("E019");
            reveal_strlit("module error");
            assert("module error"@.len() == 12);
        },
        AnalysisError::SymbolNotExported { .. } => {
            reveal_strlit("E020");
            reveal_strlit("module error");
            assert("module error"@.len() == 12);
        },
        AnalysisError::DivisionByZero { .. } => {
            reveal_strlit("E021");
            reveal_strlit("arithmetic error");
            assert("arithmetic error"@.len() == 16);
        },
        AnalysisError::RedundantMatchArm { .. } => {
            reveal_strlit("W001");
            reveal_strlit("warning");
            assert("warning"@ =~= "warning"@);
        },
        AnalysisError::TautologicalCondition { .. } => {
            reveal_strlit("W002");
            reveal_strlit("warning");
            assert("warning"@ =~= "warning"@);
        },
        AnalysisError::ContradictoryCondition { .. } => {
            reveal_strlit("W003");
            reveal_strlit("warning");
            assert("warning"@ =~= "warning"@);
        },
        AnalysisError::NonLiteralConst { .. } => {
            reveal_strlit("E022");
            reveal_strlit("const error");
            assert("const error"@.len() == 11);
        },
        AnalysisError::AssignToConst { .. } => {
            reveal_strlit("E023");
            reveal_strlit("mutability error");
            assert("mutability error"@.len() == 16);
        },
        AnalysisError::ProcessorFail { .. } => {
            reveal_strlit("E024");
            reveal_strlit("processor error");
            assert("processor error"@.len() == 15);
        },
        AnalysisError::ProcessorWarn { .. } => {
            reveal_strlit("W004");
            reveal_strlit("warning");
            assert("warning"@ =~= "warning"@);
        },
        AnalysisError::UnpinnedAssocTypes { .. } => {
            reveal_strlit("E025");
            reveal_strlit("type error");
            assert("type error"@.len() == 10);
        },
        AnalysisError::VarianceViolation { .. } => {
            reveal_strlit("E026");
            reveal_strlit("type error");
            assert("type error"@.len() == 10);
        },
        AnalysisError::ProjectedBoundViolation { .. } => {
            reveal_strlit("E027");
            reveal_strlit("type error");
            assert("type error"@.len() == 10);
        },
        AnalysisError::NotIterable { .. } => {
            reveal_strlit("E028");
            reveal_strlit("type error");
            assert("type error"@.len() == 10);
        },
        AnalysisError::CyclicInterface { .. } => {
            reveal_strlit("E029");
            reveal_strlit("interface error");
            assert("interface error"@.len() == 15);
        },
        AnalysisError::RecursiveTypeWithoutIndirect { .. } => {
            reveal_strlit("E030");
            reveal_strlit("type error");
            assert("type error"@.len() == 10);
        },
        AnalysisError::MissingImplementsAnnotation { .. } => {
            reveal_strlit("E031");
            reveal_strlit("annotation error");
            assert("annotation error"@.len() == 16);
        },
        AnalysisError::UnusedVariable { .. } => {
            reveal_strlit("W005");
            reveal_strlit("warning");
            assert("warning"@ =~= "warning"@);
        },
        AnalysisError::NeedlessMut { .. } => {
            reveal_strlit("W006");
            reveal_strlit("warning");
            assert("warning"@ =~= "warning"@);
        },
        AnalysisError::UnreachableCode { .. } => {
            reveal_strlit("W007");
            reveal_strlit("warning");
            assert("warning"@ =~= "warning"@);
        },
        AnalysisError::ThrowsInCleanContext { .. } => {
            reveal_strlit("E032");
            reveal_strlit("type error");
            assert("type error"@.len() == 10);
        },
        AnalysisError::ImplementsOnNonInterface { .. } => {
            reveal_strlit("E033");
            reveal_strlit("type error");
            assert("type error"@.len() == 10);
        },
    }
}

/// A diagnostic code begins with `W` exactly when the diagnostic is a warning.
pub proof fn warning_codes_start_with_w(e: AnalysisError)
    ensures
        code_text(e).len() > 0,
        (code_text(e)[0] == 'W') <==> (kind_text(e) == "warning"@),
{
    lemma_code_facts(e);
}

/// Diagnostic codes identify variants: two errors have the same code exactly when they
/// are of the same variant.
pub proof fn codes_identify_variants(a: AnalysisError, b: AnalysisError)
    ensures
        (code_text(a) == code_text(b)) <==> same_variant(a, b),
{
    lemma_code_facts(a);
    lemma_code_facts(b);
    match a {
        AnalysisError::UndefinedName { .. } => {},
        AnalysisError::TypeMismatch { .. } => {},
        AnalysisError::ArityMismatch { .. } => {},
        AnalysisError::AssignToImmutable { .. } => {},
        AnalysisError::DuplicateName { .. } => {},
        AnalysisError::MissingReturn { .. } => {},
        AnalysisError::NonExhaustiveMatch { .. } => {},
        AnalysisError::MissingConformance { .. } => {},
        AnalysisError::BoundViolation { .. } => {},
        AnalysisError::PrivateField { .. } => {},
        AnalysisError::NoMatchingOverload { .. } => {},
        AnalysisError::DuplicateImpl { .. } => {},
        AnalysisError::NonObjectSafeInterface { .. } => {},
        AnalysisError::NoField { .. } => {},
        AnalysisError::UnknownAnnotation { .. } => {},
        AnalysisError::BareFieldAccess { .. } => {},
        AnalysisError::DuplicateSignature { .. } => {},
        AnalysisError::BoundsOnImplementation { .. } => {},
        AnalysisError::MissingImplementation { .. } => {},
        AnalysisError::ModuleNotFound { .. } => {},
        AnalysisError::SymbolNotExported { .. } => {},
        AnalysisError::DivisionByZero { .. } => {},
        AnalysisError::RedundantMatchArm { .. } => {},
        AnalysisError::TautologicalCondition { .. } => {},
        AnalysisError::ContradictoryCondition { .. } => {},
        AnalysisError::NonLiteralConst { .. } => {},
        AnalysisError::AssignToConst { .. } => {},
        AnalysisError::ProcessorFail { .. } => {},
        AnalysisError::ProcessorWarn { .. } => {},
        AnalysisError::UnpinnedAssocTypes { .. } => {},
        AnalysisError::VarianceViolation { .. } => {},
        AnalysisError::ProjectedBoundViolation { .. } => {},
        AnalysisError::NotIterable { .. } => {},
        AnalysisError::CyclicInterface { .. } => {},
        AnalysisError::RecursiveTypeWithoutIndirect { .. } => {},
        AnalysisError::MissingImplementsAnnotation { .. } => {},
        AnalysisError::UnusedVariable { .. } => {},
        AnalysisError::NeedlessMut { .. } => {},
        AnalysisError::UnreachableCode { .. } => {},
        AnalysisError::ThrowsInCleanContext { .. } => {},
        AnalysisError::ImplementsOnNonInterface { .. } => {},
    }
}

/// The category of an error, such as `type error`.
pub open spec fn kind_text(e: AnalysisError) -> Seq<char> {
    match e {
        AnalysisError::UndefinedName { .. } => "name error"@,
        AnalysisError::TypeMismatch { .. } => "type error"@,
        AnalysisError::ArityMismatch { .. } => "type error"@,
        AnalysisError::AssignToImmutable { .. } => "mutability error"@,
        AnalysisError::DuplicateName { .. } => "name error"@,
        AnalysisError::MissingReturn { .. } => "control flow error"@,
        AnalysisError::NonExhaustiveMatch { .. } => "exhaustiveness error"@,
        AnalysisError::MissingConformance { .. } => "conformance error"@,
        AnalysisError::BoundViolation { .. } => "type error"@,
        AnalysisError::PrivateField { .. } => "visibility error"@,
        AnalysisError::NoMatchingOverload { .. } => "type error"@,
        AnalysisError::DuplicateImpl { .. } => "impl error"@,
        AnalysisError::NonObjectSafeInterface { .. } => "object safety error"@,
        AnalysisError::NoField { .. } => "type error"@,
        AnalysisError::UnknownAnnotation { .. } => "annotation error"@,
        AnalysisError::BareFieldAccess { .. } => "name error"@,
        AnalysisError::DuplicateSignature { .. } => "name error"@,
        AnalysisError::BoundsOnImplementation { .. } => "declaration error"@,
        AnalysisError::MissingImplementation { .. } => "declaration error"@,
        AnalysisError::ModuleNotFound { .. } => "module error"@,
        AnalysisError::SymbolNotExported { .. } => "module error"@,
        AnalysisError::DivisionByZero { .. } => "arithmetic error"@,
        AnalysisError::RedundantMatchArm { .. } => "warning"@,
        AnalysisError::TautologicalCondition { .. } => "warning"@,
        AnalysisError::ContradictoryCondition { .. } => "warning"@,
        AnalysisError::NonLiteralConst { .. } => "const error"@,
        AnalysisError::AssignToConst { .. } => "mutability error"@,
        AnalysisError::ProcessorFail { .. } => "processor error"@,
        AnalysisError::ProcessorWarn { .. } => "warning"@,
        AnalysisError::UnpinnedAssocTypes { .. } => "type error"@,
        AnalysisError::VarianceViolation { .. } => "type error"@,
        AnalysisError::ProjectedBoundViolation { .. } => "type error"@,
        AnalysisError::NotIterable { .. } => "type error"@,
        AnalysisError::CyclicInterface { .. } => "interface error"@,
        AnalysisError::RecursiveTypeWithoutIndirect { .. } => "type error"@,
        AnalysisError::MissingImplementsAnnotation { .. } => "annotation error"@,
        AnalysisError::UnusedVariable { .. } => "warning"@,
        AnalysisError::NeedlessMut { .. } => "warning"@,
        AnalysisError::UnreachableCode { .. } => "warning"@,
        AnalysisError::ThrowsInCleanContext { .. } => "type error"@,
        AnalysisError::ImplementsOnNonInterface { .. } => "type error"@,
    }
}

/// The human-readable message of an error.
pub open spec fn message_text(e: AnalysisError) -> Seq<char> {
    match e {
        AnalysisError::UndefinedName { name, did_you_mean, .. } => match did_you_mean {
            Some((s, _)) => "undefined name `"@ + name@ + "` -- did you mean `"@ + s@ + "`?"@,
            None => "undefined name `"@ + name@ + "`"@,
        },
        AnalysisError::TypeMismatch { expected, found, .. } => "type mismatch: expected `"@ + expected@ + "`, found `"@ + found@ + "`"@,
        AnalysisError::ArityMismatch { expected, found, .. } => "wrong number of arguments: expected "@ + decimal(expected as nat) + ", found "@ + decimal(found as nat),
        AnalysisError::AssignToImmutable { name, .. } => "cannot assign to immutable binding `"@ + name@ + "`"@,
        AnalysisError::DuplicateName { name, .. } => "duplicate top-level name `"@ + name@ + "`"@,
        AnalysisError::MissingReturn { name, .. } => "function `"@ + name@ + "` does not return a value on all paths"@,
        AnalysisError::NonExhaustiveMatch { .. } => "match is not exhaustive"@,
        AnalysisError::MissingConformance { ty, iface, detail, .. } => "type `"@ + ty@ + "` does not satisfy `"@ + iface@ + "`: "@ + detail@,
        AnalysisError::BoundViolation { ty, iface, context, .. } => "`"@ + ty@ + "` does not implement `"@ + iface@ + "`"@ + context@,
        AnalysisError::PrivateField { field, .. } => "field `"@ + field@ + "` is private"@,
        AnalysisError::NoMatchingOverload { name, .. } => "no matching overload for `"@ + name@ + "`"@,
        AnalysisError::DuplicateImpl { iface, ty, .. } => "duplicate plain impl of `"@ + iface@ + "` for `"@ + ty@ + "`"@,
        AnalysisError::NonObjectSafeInterface { iface, method, .. } => "interface `"@ + iface@ + "` is not object-safe (method `"@ + method@ + "` uses `Self`)"@,
        AnalysisError::NoField { ty, field, .. } => "type `"@ + ty@ + "` has no field `"@ + field@ + "`"@,
        AnalysisError::UnknownAnnotation { name, .. } => "unknown annotation `"@ + name@ + "`"@,
        AnalysisError::BareFieldAccess { field, .. } => "`"@ + field@ + "` is a struct field; write `self."@ + field@ + "` to access it"@,
        AnalysisError::DuplicateSignature { name, .. } => "duplicate definition of `"@ + name@ + "` with the same parameter signature"@,
        AnalysisError::BoundsOnImplementation { name, .. } => "implementation of `"@ + name@ + "` must omit bounds; bounds are declared canonically on the declaration"@,
        AnalysisError::MissingImplementation { name, .. } => "`"@ + name@ + "` is declared but never implemented"@,
        AnalysisError::ModuleNotFound { path, .. } => "module `"@ + path@ + "` not found"@,
        AnalysisError::SymbolNotExported { symbol, module, .. } => "symbol `"@ + symbol@ + "` is not exported by module `"@ + module@ + "`"@,
        AnalysisError::DivisionByZero { .. } => "division by zero detected at compile time"@,
        AnalysisError::RedundantMatchArm { message, .. } => message@,
        AnalysisError::TautologicalCondition { .. } => "condition is always true"@,
        AnalysisError::ContradictoryCondition { .. } => "condition is always false"@,
        AnalysisError::NonLiteralConst { name, .. } => "const initializer for '"@ + name@ + "' must be a literal value"@,
        AnalysisError::AssignToConst { name, .. } => "cannot assign to const '"@ + name@ + "'"@,
        AnalysisError::ProcessorFail { msg, .. } => msg@,
        AnalysisError::ProcessorWarn { msg, .. } => msg@,
        AnalysisError::UnpinnedAssocTypes { iface, unbound, .. } => "interface `"@ + iface@ + "` has unbound associated types: "@ + unbound@,
        AnalysisError::VarianceViolation { found, expected, container, .. } => "type argument `"@ + found@ + "` is not compatible with `"@ + expected@ + "` (invariant position in `"@ + container@ + "`)"@,
        AnalysisError::ProjectedBoundViolation { base_ty, base_iface, assoc_name, assoc_ty, required_iface, .. } => "`"@ + base_ty@ + ": "@ + base_iface@ + "` -- associated type `"@ + assoc_name@ + "` is `"@ + assoc_ty@ + "`, which does not implement `"@ + required_iface@ + "`"@,
        AnalysisError::NotIterable { ty, .. } => "type `"@ + ty@ + "` does not implement `Iterable` and cannot be used in a for loop"@,
        AnalysisError::CyclicInterface { iface, cycle, .. } => "cyclic interface hierarchy: `"@ + iface@ + "` transitively extends itself ("@ + cycle@ + ")"@,
        AnalysisError::RecursiveTypeWithoutIndirect { ty, field, .. } => "recursive type `"@ + ty@ + "` has infinite size -- field `"@ + field@ + "` refers back to the enclosing type; add `@indirect` to break the cycle"@,
        AnalysisError::MissingImplementsAnnotation { .. } => "hook in struct body requires `@implements[InterfaceName]` annotation"@,
        AnalysisError::UnusedVariable { name, .. } => "variable `"@ + name@ + "` is declared but never used"@,
        AnalysisError::NeedlessMut { name, .. } => "variable `"@ + name@ + "` does not need to be mutable"@,
        AnalysisError::UnreachableCode { .. } => "unreachable statement"@,
        AnalysisError::ThrowsInCleanContext { .. } => "call to `throws` function in non-`throws` context -- wrap with `try` or mark this function `throws`"@,
        AnalysisError::ImplementsOnNonInterface { found, .. } => "`implements` requires an interface-typed value, but found `"@ + found@ + "`"@,
    }
}

/// The label shown under the caret, for the errors that have one.
pub open spec fn caret_text(e: AnalysisError) -> Option<Seq<char>> {
    match e {
        AnalysisError::UndefinedName { name, .. } => Some("`"@ + name@ + "` not found"@),
        AnalysisError::TypeMismatch { expected, .. } => Some("expected `"@ + expected@ + "`"@),
        AnalysisError::ArityMismatch { expected, found, .. } => Some("expected "@ + decimal(expected as nat) + ", found "@ + decimal(found as nat)),
        AnalysisError::AssignToImmutable { name, .. } => Some("cannot assign to `"@ + name@ + "`"@),
        AnalysisError::DuplicateName { name, .. } => Some("`"@ + name@ + "` redefined"@),
        AnalysisError::MissingReturn { .. } => Some("no return on all paths"@),
        AnalysisError::MissingConformance { iface, .. } => Some("missing `"@ + iface@ + "`"@),
        AnalysisError::PrivateField { field, .. } => Some("`"@ + field@ + "` is private"@),
        AnalysisError::NoField { field, .. } => Some("no field `"@ + field@ + "`"@),
        AnalysisError::BareFieldAccess { field, .. } => Some("did you mean `self."@ + field@ + "`?"@),
        AnalysisError::AssignToConst { name, .. } => Some("cannot assign to `"@ + name@ + "`"@),
        AnalysisError::UnusedVariable { name, .. } => Some("`"@ + name@ + "` unused"@),
        AnalysisError::NeedlessMut { name, .. } => Some("`"@ + name@ + "` never reassigned"@),
        AnalysisError::UnreachableCode { .. } => Some("unreachable"@),
        _ => None,
    }
}

/// The primary source span of an error.
pub open spec fn span_of(e: AnalysisError) -> Span {
    match e {
        AnalysisError::UndefinedName { span, .. } => span,
        AnalysisError::TypeMismatch { span, .. } => span,
        AnalysisError::ArityMismatch { span, .. } => span,
        AnalysisError::AssignToImmutable { span, .. } => span,
        AnalysisError::DuplicateName { span, .. } => span,
        AnalysisError::MissingReturn { span, .. } => span,
        AnalysisError::NonExhaustiveMatch { span, .. } => span,
        AnalysisError::MissingConformance { span, .. } => span,
        AnalysisError::BoundViolation { span, .. } => span,
        AnalysisError::PrivateField { span, .. } => span,
        AnalysisError::NoMatchingOverload { span, .. } => span,
        AnalysisError::DuplicateImpl { span, .. } => span,
        AnalysisError::NonObjectSafeInterface { span, .. } => span,
        AnalysisError::NoField { span, .. } => span,
        AnalysisError::UnknownAnnotation { span, .. } => span,
        AnalysisError::BareFieldAccess { span, .. } => span,
        AnalysisError::DuplicateSignature { span, .. } => span,
        AnalysisError::BoundsOnImplementation { span, .. } => span,
        AnalysisError::MissingImplementation { span, .. } => span,
        AnalysisError::ModuleNotFound { span, .. } => span,
        AnalysisError::SymbolNotExported { span, .. } => span,
        AnalysisError::DivisionByZero { span, .. } => span,
        AnalysisError::RedundantMatchArm { span, .. } => span,
        AnalysisError::TautologicalCondition { span, .. } => span,
        AnalysisError::ContradictoryCondition { span, .. } => span,
        AnalysisError::NonLiteralConst { span, .. } => span,
        AnalysisError::AssignToConst { span, .. } => span,
        AnalysisError::ProcessorFail { span, .. } => span,
        AnalysisError::ProcessorWarn { span, .. } => span,
        AnalysisError::UnpinnedAssocTypes { span, .. } => span,
        AnalysisError::VarianceViolation { span, .. } => span,
        AnalysisError::ProjectedBoundViolation { span, .. } => span,
        AnalysisError::NotIterable { span, .. } => span,
        AnalysisError::CyclicInterface { span, .. } => span,
        AnalysisError::RecursiveTypeWithoutIndirect { span, .. } => span,
        AnalysisError::MissingImplementsAnnotation { span, .. } => span,
        AnalysisError::UnusedVariable { span, .. } => span,
        AnalysisError::NeedlessMut { span, .. } => span,
        AnalysisError::UnreachableCode { span, .. } => span,
        AnalysisError::ThrowsInCleanContext { span, .. } => span,
        AnalysisError::ImplementsOnNonInterface { span, .. } => span,
    }
}

/// The notes of a list of notes, with each text as its characters.
pub open spec fn notes_view(n: Seq<(String, Option<Span>)>) -> Seq<(Seq<char>, Option<Span>)> {
    Seq::new(n.len(), |i: int| (n[i].0@, n[i].1))
}

/// The notes shown after an error, in display order.
pub open spec fn notes_text(e: AnalysisError) -> Seq<(Seq<char>, Option<Span>)> {
    match e {
        AnalysisError::UndefinedName { did_you_mean, .. } => match did_you_mean {
            Some((name, Some(decl_span))) => seq![("`"@ + name@ + "` declared here"@, Some(decl_span))],
            _ => Seq::empty(),
        },
        AnalysisError::AssignToImmutable { decl_span, .. } => match decl_span {
            Some(ds) => seq![("variable declared immutable here"@, Some(ds))],
            None => Seq::empty(),
        },
        AnalysisError::TypeMismatch { decl_span, .. } => match decl_span {
            Some(ds) => seq![("expected type declared here"@, Some(ds))],
            None => Seq::empty(),
        },
        AnalysisError::ArityMismatch { fn_span, .. } => match fn_span {
            Some(fs) => seq![("function defined here"@, Some(fs))],
            None => Seq::empty(),
        },
        AnalysisError::MissingConformance { iface_span, .. } => match iface_span {
            Some(is) => seq![("interface required here"@, Some(is))],
            None => Seq::empty(),
        },
        AnalysisError::BoundViolation { notes, .. } => notes_view(notes@),
        AnalysisError::UnreachableCode { terminator_span, .. } => seq![
            ("any code after this point is unreachable"@, Some(terminator_span)),
        ],
        _ => Seq::empty(),
    }
}

/// A copy of a list of notes.
pub fn copy_notes(n: &Vec<(String, Option<Span>)>) -> (r: Vec<(String, Option<Span>)>)
    ensures
        notes_view(r@) == notes_view(n@),
{
    let mut out: Vec<(String, Option<Span>)> = Vec::new();
    let mut i: usize = 0;
    while i < n.len()
        invariant
            i <= n.len(),
            out@.len() == i,
            forall|j: int| 0 <= j < i ==> #[trigger] out@[j].0@ == n@[j].0@ && out@[j].1 == n@[j].1,
        decreases n.len() - i,
    {
        let t = n[i].0.clone();
        out.push((t, n[i].1));
        i += 1;
    }
    assert(notes_view(out@) =~= notes_view(n@));
    out
}

/// A single note.
fn one_note(text: &str, span: Option<Span>) -> (r: Vec<(String, Option<Span>)>)
    ensures
        notes_view(r@) == seq![(text@, span)],
{
    let mut v: Vec<(String, Option<Span>)> = Vec::new();
    v.push((String::from_str(text), span));
    assert(notes_view(v@) =~= seq![(text@, span)]);
    v
}

impl AnalysisError {
    /// The diagnostic code, such as `E001` for errors and `W001` for warnings.
    pub fn code(&self) -> (r: &'static str)
        ensures
            r@ == code_text(*self),
    {
        match self {
            AnalysisError::UndefinedName { .. } => "E001",
            AnalysisError::TypeMismatch { .. } => "E002",
            AnalysisError::ArityMismatch { .. } => "E002a",
            AnalysisError::AssignToImmutable { .. } => "E003",
            AnalysisError::DuplicateName { .. } => "E004",
            AnalysisError::MissingReturn { .. } => "E005",
            AnalysisError::NonExhaustiveMatch { .. } => "E006",
            AnalysisError::MissingConformance { .. } => "E007",
            AnalysisError::BoundViolation { .. } => "E008",
            AnalysisError::PrivateField { .. } => "E009",
            AnalysisError::NoMatchingOverload { .. } => "E010",
            AnalysisError::DuplicateImpl { .. } => "E011",
            AnalysisError::NonObjectSafeInterface { .. } => "E012",
            AnalysisError::NoField { .. } => "E013",
            AnalysisError::UnknownAnnotation { .. } => "E014",
            AnalysisError::BareFieldAccess { .. } => "E015",
            AnalysisError::DuplicateSignature { .. } => "E016",
            AnalysisError::BoundsOnImplementation { .. } => "E017",
            AnalysisError::MissingImplementation { .. } => "E018",
            AnalysisError::ModuleNotFound { .. } => "E019",
            AnalysisError::SymbolNotExported { .. } => "E020",
            AnalysisError::DivisionByZero { .. } => "E021",
            AnalysisError::RedundantMatchArm { .. } => "W001",
            AnalysisError::TautologicalCondition { .. } => "W002",
            AnalysisError::ContradictoryCondition { .. } => "W003",
            AnalysisError::NonLiteralConst { .. } => "E022",
            AnalysisError::AssignToConst { .. } => "E023",
            AnalysisError::ProcessorFail { .. } => "E024",
            AnalysisError::ProcessorWarn { .. } => "W004",
            AnalysisError::UnpinnedAssocTypes { .. } => "E025",
            AnalysisError::VarianceViolation { .. } => "E026",
            AnalysisError::ProjectedBoundViolation { .. } => "E027",
            AnalysisError::NotIterable { .. } => "E028",
            AnalysisError::CyclicInterface { .. } => "E029",
            AnalysisError::RecursiveTypeWithoutIndirect { .. } => "E030",
            AnalysisError::MissingImplementsAnnotation { .. } => "E031",
            AnalysisError::UnusedVariable { .. } => "W005",
            AnalysisError::NeedlessMut { .. } => "W006",
            AnalysisError::UnreachableCode { .. } => "W007",
            AnalysisError::ThrowsInCleanContext { .. } => "E032",
            AnalysisError::ImplementsOnNonInterface { .. } => "E033",
        }
    }

    /// The category of the diagnostic, such as `type error` or `warning`.
    pub fn kind(&self) -> (r: &'static str)
        ensures
            r@ == kind_text(*self),
    {
        match self {
            AnalysisError::UndefinedName { .. } => "name error",
            AnalysisError::TypeMismatch { .. } => "type error",
            AnalysisError::ArityMismatch { .. } => "type error",
            AnalysisError::AssignToImmutable { .. } => "mutability error",
            AnalysisError::DuplicateName { .. } => "name error",
            AnalysisError::MissingReturn { .. } => "control flow error",
            AnalysisError::NonExhaustiveMatch { .. } => "exhaustiveness error",
            AnalysisError::MissingConformance { .. } => "conformance error",
            AnalysisError::BoundViolation { .. } => "type error",
            AnalysisError::PrivateField { .. } => "visibility error",
            AnalysisError::NoMatchingOverload { .. } => "type error",
            AnalysisError::DuplicateImpl { .. } => "impl error",
            AnalysisError::NonObjectSafeInterface { .. } => "object safety error",
            AnalysisError::NoField { .. } => "type error",
            AnalysisError::UnknownAnnotation { .. } => "annotation error",
            AnalysisError::BareFieldAccess { .. } => "name error",
            AnalysisError::DuplicateSignature { .. } => "name error",
            AnalysisError::BoundsOnImplementation { .. } => "declaration error",
            AnalysisError::MissingImplementation { .. } => "declaration error",
            AnalysisError::ModuleNotFound { .. } => "module error",
            AnalysisError::SymbolNotExported { .. } => "module error",
            AnalysisError::DivisionByZero { .. } => "arithmetic error",
            AnalysisError::RedundantMatchArm { .. } => "warning",
            AnalysisError::TautologicalCondition { .. } => "warning",
            AnalysisError::ContradictoryCondition { .. } => "warning",
            AnalysisError::NonLiteralConst { .. } => "const error",
            AnalysisError::AssignToConst { .. } => "mutability error",
            AnalysisError::ProcessorFail { .. } => "processor error",
            AnalysisError::ProcessorWarn { .. } => "warning",
            AnalysisError::UnpinnedAssocTypes { .. } => "type error",
            AnalysisError::VarianceViolation { .. } => "type error",
            AnalysisError::ProjectedBoundViolation { .. } => "type error",
            AnalysisError::NotIterable { .. } => "type error",
            AnalysisError::CyclicInterface { .. } => "interface error",
            AnalysisError::RecursiveTypeWithoutIndirect { .. } => "type error",
            AnalysisError::MissingImplementsAnnotation { .. } => "annotation error",
            AnalysisError::UnusedVariable { .. } => "warning",
            AnalysisError::NeedlessMut { .. } => "warning",
            AnalysisError::UnreachableCode { .. } => "warning",
            AnalysisError::ThrowsInCleanContext { .. } => "type error",
            AnalysisError::ImplementsOnNonInterface { .. } => "type error",
        }
    }

    /// The human-readable message, without the location.
    pub fn message(&self) -> (r: String)
        ensures
            r@ == message_text(*self),
    {
        match self {
            AnalysisError::UndefinedName { name, did_you_mean, .. } => match did_you_mean {
                Some((sugg, _)) => {
                    let mut s = String::from_str("undefined name `");
                    s.append(name.as_str());
                    s.append("` -- did you mean `");
                    s.append(sugg.as_str());
                    s.append("`?");
                    s
                },
                None => {
                    let mut s = String::from_str("undefined name `");
                    s.append(name.as_str());
                    s.append("`");
                    s
                },
            },
            AnalysisError::TypeMismatch { expected, found, .. } => {
                let mut s = String::from_str("type mismatch: expected `");
                s.append(expected.as_str());
                s.append("`, found `");
                s.append(found.as_str());
                s.append("`");
                s
            },
            AnalysisError::ArityMismatch { expected, found, .. } => {
                let mut s = String::from_str("wrong number of arguments: expected ");
                append_decimal(&mut s, *expected);
                s.append(", found ");
                append_decimal(&mut s, *found);
                s
            },
            AnalysisError::AssignToImmutable { name, .. } => {
                let mut s = String::from_str("cannot assign to immutable binding `");
                s.append(name.as_str());
                s.append("`");
                s
            },
            AnalysisError::DuplicateName { name, .. } => {
                let mut s = String::from_str("duplicate top-level name `");
                s.append(name.as_str());
                s.append("`");
                s
            },
            AnalysisError::MissingReturn { name, .. } => {
                let mut s = String::from_str("function `");
                s.append(name.as_str());
                s.append("` does not return a value on all paths");
                s
            },
            AnalysisError::NonExhaustiveMatch { .. } => {
                let mut s = String::from_str("match is not exhaustive");
                s
            },
            AnalysisError::MissingConformance { ty, iface, detail, .. } => {
                let mut s = String::from_str("type `");
                s.append(ty.as_str());
                s.append("` does not satisfy `");
                s.append(iface.as_str());
                s.append("`: ");
                s.append(detail.as_str());
                s
            },
            AnalysisError::BoundViolation { ty, iface, context, .. } => {
                let mut s = String::from_str("`");
                s.append(ty.as_str());
                s.append("` does not implement `");
                s.append(iface.as_str());
                s.append("`");
                s.append(context.as_str());
                s
            },
            AnalysisError::PrivateField { field, .. } => {
                let mut s = String::from_str("field `");
                s.append(field.as_str());
                s.append("` is private");
                s
            },
            AnalysisError::NoMatchingOverload { name, .. } => {
                let mut s = String::from_str("no matching overload for `");
                s.append(name.as_str());
                s.append("`");
                s
            },
            AnalysisError::DuplicateImpl { iface, ty, .. } => {
                let mut s = String::from_str("duplicate plain impl of `");
                s.append(iface.as_str());
                s.append("` for `");
                s.append(ty.as_str());
                s.append("`");
                s
            },
            AnalysisError::NonObjectSafeInterface { iface, method, .. } => {
                let mut s = String::from_str("interface `");
                s.append(iface.as_str());
                s.append("` is not object-safe (method `");
                s.append(method.as_str());
                s.append("` uses `Self`)");
                s
            },
            AnalysisError::NoField { ty, field, .. } => {
                let mut s = String::from_str("type `");
                s.append(ty.as_str());
                s.append("` has no field `");
                s.append(field.as_str());
                s.append("`");
                s
            },
            AnalysisError::UnknownAnnotation { name, .. } => {
                let mut s = String::from_str("unknown annotation `");
                s.append(name.as_str());
                s.append("`");
                s
            },
            AnalysisError::BareFieldAccess { field, .. } => {
                let mut s = String::from_str("`");
                s.append(field.as_str());
                s.append("` is a struct field; write `self.");
                s.append(field.as_str());
                s.append("` to access it");
                s
            },
            AnalysisError::DuplicateSignature { name, .. } => {
                let mut s = String::from_str("duplicate definition of `");
                s.append(name.as_str());
                s.append("` with the same parameter signature");
                s
            },
            AnalysisError::BoundsOnImplementation { name, .. } => {
                let mut s = String::from_str("implementation of `");
                s.append(name.as_str());
                s.append("` must omit bounds; bounds are declared canonically on the declaration");
                s
            },
            AnalysisError::MissingImplementation { name, .. } => {
                let mut s = String::from_str("`");
                s.append(name.as_str());
                s.append("` is declared but never implemented");
                s
            },
            AnalysisError::ModuleNotFound { path, .. } => {
                let mut s = String::from_str("module `");
                s.append(path.as_str());
                s.append("` not found");
                s
            },
            AnalysisError::SymbolNotExported { symbol, module, .. } => {
                let mut s = String::from_str("symbol `");
                s.append(symbol.as_str());
                s.append("` is not exported by module `");
                s.append(module.as_str());
                s.append("`");
                s
            },
            AnalysisError::DivisionByZero { .. } => {
                let mut s = String::from_str("division by zero detected at compile time");
                s
            },
            AnalysisError::RedundantMatchArm { message, .. } => message.clone(),
            AnalysisError::TautologicalCondition { .. } => {
                let mut s = String::from_str("condition is always true");
                s
            },
            AnalysisError::ContradictoryCondition { .. } => {
                let mut s = String::from_str("condition is always false");
                s
            },
            AnalysisError::NonLiteralConst { name, .. } => {
                let mut s = String::from_str("const initializer for '");
                s.append(name.as_str());
                s.append("' must be a literal value");
                s
            },
            AnalysisError::AssignToConst { name, .. } => {
                let mut s = String::from_str("cannot assign to const '");
                s.append(name.as_str());
                s.append("'");
                s
            },
            AnalysisError::ProcessorFail { msg, .. } => msg.clone(),
            AnalysisError::ProcessorWarn { msg, .. } => msg.clone(),
            AnalysisError::UnpinnedAssocTypes { iface, unbound, .. } => {
                let mut s = String::from_str("interface `");
                s.append(iface.as_str());
                s.append("` has unbound associated types: ");
                s.append(unbound.as_str());
                s
            },
            AnalysisError::VarianceViolation { found, expected, container, .. } => {
                let mut s = String::from_str("type argument `");
                s.append(found.as_str());
                s.append("` is not compatible with `");
                s.append(expected.as_str());
                s.append("` (invariant position in `");
                s.append(container.as_str());
                s.append("`)");
                s
            },
            AnalysisError::ProjectedBoundViolation { base_ty, base_iface, assoc_name, assoc_ty, required_iface, .. } => {
                let mut s = String::from_str("`");
                s.append(base_ty.as_str());
                s.append(": ");
                s.append(base_iface.as_str());
                s.append("` -- associated type `");
                s.append(assoc_name.as_str());
                s.append("` is `");
                s.append(assoc_ty.as_str());
                s.append("`, which does not implement `");
                s.append(required_iface.as_str());
                s.append("`");
                s
            },
            AnalysisError::NotIterable { ty, .. } => {
                let mut s = String::from_str("type `");
                s.append(ty.as_str());
                s.append("` does not implement `Iterable` and cannot be used in a for loop");
                s
            },
            AnalysisError::CyclicInterface { iface, cycle, .. } => {
                let mut s = String::from_str("cyclic interface hierarchy: `");
                s.append(iface.as_str());
                s.append("` transitively extends itself (");
                s.append(cycle.as_str());
                s.append(")");
                s
            },
            AnalysisError::RecursiveTypeWithoutIndirect { ty, field, .. } => {
                let mut s = String::from_str("recursive type `");
                s.append(ty.as_str());
                s.append("` has infinite size -- field `");
                s.append(field.as_str());
                s.append("` refers back to the enclosing type; add `@indirect` to break the cycle");
                s
            },
            AnalysisError::MissingImplementsAnnotation { .. } => {
                let mut s = String::from_str("hook in struct body requires `@implements[InterfaceName]` annotation");
                s
            },
            AnalysisError::UnusedVariable { name, .. } => {
                let mut s = String::from_str("variable `");
                s.append(name.as_str());
                s.append("` is declared but never used");
                s
            },
            AnalysisError::NeedlessMut { name, .. } => {
                let mut s = String::from_str("variable `");
                s.append(name.as_str());
                s.append("` does not need to be mutable");
                s
            },
            AnalysisError::UnreachableCode { .. } => {
                let mut s = String::from_str("unreachable statement");
                s
            },
            AnalysisError::ThrowsInCleanContext { .. } => {
                let mut s = String::from_str("call to `throws` function in non-`throws` context -- wrap with `try` or mark this function `throws`");
                s
            },
            AnalysisError::ImplementsOnNonInterface { found, .. } => {
                let mut s = String::from_str("`implements` requires an interface-typed value, but found `");
                s.append(found.as_str());
                s.append("`");
                s
            },
        }
    }

    /// All `(note text, note span)` pairs of this error, in display order.
    pub fn note_info(&self) -> (r: DiagNotes)
        ensures
            notes_view(r@) == notes_text(*self),
    {
        match self {
            AnalysisError::UndefinedName { did_you_mean, .. } => match did_you_mean {
                Some((name, Some(decl_span))) => {
                    let mut t = String::from_str("`");
                    t.append(name.as_str());
                    t.append("` declared here");
                    let mut v: Vec<(String, Option<Span>)> = Vec::new();
                    let ghost tv = t@;
                    v.push((t, Some(*decl_span)));
                    assert(notes_view(v@) =~= seq![(tv, Some(*decl_span))]);
                    v
                },
                _ => {
                    let v: Vec<(String, Option<Span>)> = Vec::new();
                    assert(notes_view(v@) =~= Seq::empty());
                    v
                },
            },
            AnalysisError::AssignToImmutable { decl_span, .. } => match decl_span {
                Some(ds) => one_note("variable declared immutable here", Some(*ds)),
                None => {
                    let v: Vec<(String, Option<Span>)> = Vec::new();
                    assert(notes_view(v@) =~= Seq::empty());
                    v
                },
            },
            AnalysisError::TypeMismatch { decl_span, .. } => match decl_span {
                Some(ds) => one_note("expected type declared here", Some(*ds)),
                None => {
                    let v: Vec<(String, Option<Span>)> = Vec::new();
                    assert(notes_view(v@) =~= Seq::empty());
                    v
                },
            },
            AnalysisError::ArityMismatch { fn_span, .. } => match fn_span {
                Some(fs) => one_note("function defined here", Some(*fs)),
                None => {
                    let v: Vec<(String, Option<Span>)> = Vec::new();
                    assert(notes_view(v@) =~= Seq::empty());
                    v
                },
            },
            AnalysisError::MissingConformance { iface_span, .. } => match iface_span {
                Some(is) => one_note("interface required here", Some(*is)),
                None => {
                    let v: Vec<(String, Option<Span>)> = Vec::new();
                    assert(notes_view(v@) =~= Seq::empty());
                    v
                },
            },
            AnalysisError::BoundViolation { notes, .. } => copy_notes(notes),
            AnalysisError::UnreachableCode { terminator_span, .. } => one_note(
                "any code after this point is unreachable",
                Some(*terminator_span),
            ),
            _ => {
                let v: Vec<(String, Option<Span>)> = Vec::new();
                assert(notes_view(v@) =~= Seq::empty());
                v
            },
        }
    }

    /// The label shown under the caret, for the errors that have one.
    pub fn caret_label(&self) -> (r: Option<String>)
        ensures
            match caret_text(*self) {
                Some(t) => r matches Some(x) && x@ == t,
                None => r is None,
            },
    {
        match self {
            AnalysisError::UndefinedName { name, .. } => {
                let mut s = String::from_str("`");
                s.append(name.as_str());
                s.append("` not found");
                Some(s)
            },
            AnalysisError::TypeMismatch { expected, .. } => {
                let mut s = String::from_str("expected `");
                s.append(expected.as_str());
                s.append("`");
                Some(s)
            },
            AnalysisError::ArityMismatch { expected, found, .. } => {
                let mut s = String::from_str("expected ");
                append_decimal(&mut s, *expected);
                s.append(", found ");
                append_decimal(&mut s, *found);
                Some(s)
            },
            AnalysisError::AssignToImmutable { name, .. } => {
                let mut s = String::from_str("cannot assign to `");
                s.append(name.as_str());
                s.append("`");
                Some(s)
            },
            AnalysisError::DuplicateName { name, .. } => {
                let mut s = String::from_str("`");
                s.append(name.as_str());
                s.append("` redefined");
                Some(s)
            },
            AnalysisError::MissingReturn { .. } => {
                let mut s = String::from_str("no return on all paths");
                Some(s)
            },
            AnalysisError::MissingConformance { iface, .. } => {
                let mut s = String::from_str("missing `");
                s.append(iface.as_str());
                s.append("`");
                Some(s)
            },
            AnalysisError::PrivateField { field, .. } => {
                let mut s = String::from_str("`");
                s.append(field.as_str());
                s.append("` is private");
                Some(s)
            },
            AnalysisError::NoField { field, .. } => {
                let mut s = String::from_str("no field `");
                s.append(field.as_str());
                s.append("`");
                Some(s)
            },
            AnalysisError::BareFieldAccess { field, .. } => {
                let mut s = String::from_str("did you mean `self.");
                s.append(field.as_str());
                s.append("`?");
                Some(s)
            },
            AnalysisError::AssignToConst { name, .. } => {
                let mut s = String::from_str("cannot assign to `");
                s.append(name.as_str());
                s.append("`");
                Some(s)
            },
            AnalysisError::UnusedVariable { name, .. } => {
                let mut s = String::from_str("`");
                s.append(name.as_str());
                s.append("` unused");
                Some(s)
            },
            AnalysisError::NeedlessMut { name, .. } => {
                let mut s = String::from_str("`");
                s.append(name.as_str());
                s.append("` never reassigned");
                Some(s)
            },
            AnalysisError::UnreachableCode { .. } => {
                let mut s = String::from_str("unreachable");
                Some(s)
            },
            _ => None,
        }
    }

    /// The primary source span.
    pub fn span(&self) -> (r: Span)
        ensures
            r == span_of(*self),
    {
        match self {
            AnalysisError::UndefinedName { span, .. } => *span,
            AnalysisError::TypeMismatch { span, .. } => *span,
            AnalysisError::ArityMismatch { span, .. } => *span,
            AnalysisError::AssignToImmutable { span, .. } => *span,
            AnalysisError::DuplicateName { span, .. } => *span,
            AnalysisError::MissingReturn { span, .. } => *span,
            AnalysisError::NonExhaustiveMatch { span, .. } => *span,
            AnalysisError::MissingConformance { span, .. } => *span,
            AnalysisError::BoundViolation { span, .. } => *span,
            AnalysisError::PrivateField { span, .. } => *span,
            AnalysisError::NoMatchingOverload { span, .. } => *span,
            AnalysisError::DuplicateImpl { span, .. } => *span,
            AnalysisError::NonObjectSafeInterface { span, .. } => *span,
            AnalysisError::NoField { span, .. } => *span,
            AnalysisError::UnknownAnnotation { span, .. } => *span,
            AnalysisError::BareFieldAccess { span, .. } => *span,
            AnalysisError::DuplicateSignature { span, .. } => *span,
            AnalysisError::BoundsOnImplementation { span, .. } => *span,
            AnalysisError::MissingImplementation { span, .. } => *span,
            AnalysisError::ModuleNotFound { span, .. } => *span,
            AnalysisError::SymbolNotExported { span, .. } => *span,
            AnalysisError::DivisionByZero { span, .. } => *span,
            AnalysisError::RedundantMatchArm { span, .. } => *span,
            AnalysisError::TautologicalCondition { span, .. } => *span,
            AnalysisError::ContradictoryCondition { span, .. } => *span,
            AnalysisError::NonLiteralConst { span, .. } => *span,
            AnalysisError::AssignToConst { span, .. } => *span,
            AnalysisError::ProcessorFail { span, .. } => *span,
            AnalysisError::ProcessorWarn { span, .. } => *span,
            AnalysisError::UnpinnedAssocTypes { span, .. } => *span,
            AnalysisError::VarianceViolation { span, .. } => *span,
            AnalysisError::ProjectedBoundViolation { span, .. } => *span,
            AnalysisError::NotIterable { span, .. } => *span,
            AnalysisError::CyclicInterface { span, .. } => *span,
            AnalysisError::RecursiveTypeWithoutIndirect { span, .. } => *span,
            AnalysisError::MissingImplementsAnnotation { span, .. } => *span,
            AnalysisError::UnusedVariable { span, .. } => *span,
            AnalysisError::NeedlessMut { span, .. } => *span,
            AnalysisError::UnreachableCode { span, .. } => *span,
            AnalysisError::ThrowsInCleanContext { span, .. } => *span,
            AnalysisError::ImplementsOnNonInterface { span, .. } => *span,
        }
    }
}

} // verus!
