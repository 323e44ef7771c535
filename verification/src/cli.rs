//! Decisions the command line makes from its arguments.
use crate::text::same_text;
use vstd::prelude::*;

verus! {

/// Which decorators TypeScript sources use.
#[derive(Debug, Copy, Clone, PartialEq, Eq, Structural)]
pub enum DecoratorType {
    Tc39,
    Typescript,
    TypescriptWithMetadata,
}

/// How the inspector is started.
#[derive(Debug, Copy, Clone, PartialEq, Eq, Structural)]
pub enum InspectorKind {
    /// `--inspect`
    Inspect,
    /// `--inspect-brk`
    WithBreak,
    /// `--inspect-wait`
    WithWait,
}

/// An inspector flag that is none of the known ones.
pub struct InvalidInspectorKey {
    pub key: String,
}

/// The lower-case form of a string, as `str::to_lowercase` gives it.
pub uninterp spec fn lowercase(s: Seq<char>) -> Seq<char>;

/// `str::to_lowercase`: its result is named `lowercase`.
#[verifier::external_body]
fn to_lowercase(s: &str) -> (r: String)
    ensures
        r@ == lowercase(s@),
{
    s.to_lowercase()
}

/// The decorator type a lower-case name stands for.
pub open spec fn decorator_named(name: Seq<char>) -> Option<DecoratorType> {
    if name == "tc39"@ {
        Some(DecoratorType::Tc39)
    } else if name == "typescript"@ {
        Some(DecoratorType::Typescript)
    } else if name == "typescript_with_metadata"@ {
        Some(DecoratorType::TypescriptWithMetadata)
    } else {
        None
    }
}

/// The decorator type an already lower-cased name stands for.
pub fn decorator_from_lowercase(name: &str) -> (r: Option<DecoratorType>)
    ensures
        r == decorator_named(name@),
{
    if same_text(name, "tc39") {
        Some(DecoratorType::Tc39)
    } else if same_text(name, "typescript") {
        Some(DecoratorType::Typescript)
    } else if same_text(name, "typescript_with_metadata") {
        Some(DecoratorType::TypescriptWithMetadata)
    } else {
        None
    }
}

/// The decorator type the `--decorator` argument asks for, whatever its
/// case; none when it is absent or unknown.
pub fn get_decorator_option(decorator: Option<&str>) -> (r: Option<DecoratorType>)
    ensures
        r == match decorator {
            Some(d) => decorator_named(lowercase(d@)),
            None => None,
        },
{
    match decorator {
        Some(d) => {
            let lowered = to_lowercase(d);
            decorator_from_lowercase(lowered.as_str())
        },
        None => None,
    }
}

/// The inspector kind a flag name stands for.
pub open spec fn inspector_named(key: Seq<char>) -> Option<InspectorKind> {
    if key == "inspect"@ {
        Some(InspectorKind::Inspect)
    } else if key == "inspect-brk"@ {
        Some(InspectorKind::WithBreak)
    } else if key == "inspect-wait"@ {
        Some(InspectorKind::WithWait)
    } else {
        None
    }
}

/// The inspector kind of the inspector flag that was given.
pub fn get_inspector_option(key: &str) -> (r: Result<InspectorKind, InvalidInspectorKey>)
    ensures
        r is Ok <==> inspector_named(key@) is Some,
        r matches Ok(k) ==> inspector_named(key@) == Some(k),
        r matches Err(e) ==> e.key@ == key@,
{
    if same_text(key, "inspect") {
        Ok(InspectorKind::Inspect)
    } else if same_text(key, "inspect-brk") {
        Ok(InspectorKind::WithBreak)
    } else if same_text(key, "inspect-wait") {
        Ok(InspectorKind::WithWait)
    } else {
        Err(InvalidInspectorKey { key: key.to_owned() })
    }
}

/// The most user workers that may run at once, and whether to warn that the
/// requested value was overridden: under the `oneshot` policy it is always
/// one, with a warning when another value than one was asked for.
pub fn user_worker_max_parallelism(is_oneshot: bool, max_parallelism: Option<usize>) -> (r: (
    Option<usize>,
    bool,
))
    ensures
        r.0 == if is_oneshot { Some(1usize) } else { max_parallelism },
        r.1 == (is_oneshot && max_parallelism is Some && max_parallelism.unwrap() != 1),
{
    if is_oneshot {
        let warn = match max_parallelism {
            Some(parallelism) => parallelism == 0 || parallelism > 1,
            None => false,
        };
        (Some(1), warn)
    } else {
        (max_parallelism, false)
    }
}

} // verus!
