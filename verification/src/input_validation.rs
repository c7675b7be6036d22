//! Guards applied to source text before it is parsed.
use vstd::prelude::*;
use crate::text::chars_of;
use vstd::string::StringSliceAdditionalSpecFns;

verus! {

/// The largest source accepted, in bytes (1 MiB).
pub const MAX_SOURCE_BYTES: usize = 1_048_576;

/// Why source text was rejected before parsing.
#[derive(Debug, Clone, Copy, PartialEq, Eq, Structural)]
pub enum ValidationError {
    /// The source is the empty string.
    EmptySource,
    /// The source is longer than [`MAX_SOURCE_BYTES`] bytes.
    SourceTooLarge,
    /// The source contains a NUL character.
    NullByte,
}

impl ValidationError {
    /// The error's human-readable message.
    pub fn message(&self) -> (r: String)
        ensures
            r@ == validation_message(*self),
    {
        match self {
            ValidationError::EmptySource => "source is empty".to_owned(),
            ValidationError::SourceTooLarge => "source exceeds the maximum size of 1048576 bytes".to_owned(),
            ValidationError::NullByte => "source contains a null byte".to_owned(),
        }
    }
}

/// The message of a validation error.
pub open spec fn validation_message(e: ValidationError) -> Seq<char> {
    match e {
        ValidationError::EmptySource => "source is empty"@,
        ValidationError::SourceTooLarge => "source exceeds the maximum size of 1048576 bytes"@,
        ValidationError::NullByte => "source contains a null byte"@,
    }
}

/// The first guard `source` fails, if any: empty, then too large (in
/// UTF-8 bytes), then containing a NUL character.
pub open spec fn validation_failure(source: &str) -> Option<ValidationError> {
    if source@.len() == 0 {
        Some(ValidationError::EmptySource)
    } else if source.spec_bytes().len() > MAX_SOURCE_BYTES {
        Some(ValidationError::SourceTooLarge)
    } else if source@.contains('\0') {
        Some(ValidationError::NullByte)
    } else {
        None
    }
}

/// Applies every guard to `source`.
pub fn validate_source_all(source: &str) -> (r: Result<(), ValidationError>)
    ensures
        match validation_failure(source) {
            Some(e) => r == Err::<(), ValidationError>(e),
            None => r is Ok,
        },
{
    if source.is_empty() {
        return Err(ValidationError::EmptySource);
    }
    let bytes = source.as_bytes();
    if bytes.len() > MAX_SOURCE_BYTES {
        return Err(ValidationError::SourceTooLarge);
    }
    let c = chars_of(source);
    let mut i: usize = 0;
    while i < c.len()
        invariant
            i <= c@.len(),
            c@ == source@,
            source@.len() != 0,
            source.spec_bytes().len() <= MAX_SOURCE_BYTES,
            forall|j: int| 0 <= j < i ==> c@[j] != '\0',
        decreases c.len() - i,
    {
        if c[i] == '\0' {
            assert(source@[i as int] == '\0');
            return Err(ValidationError::NullByte);
        }
        i = i + 1;
    }
    assert(!source@.contains('\0'));
    Ok(())
}

} // verus!
