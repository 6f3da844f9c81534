use vstd::prelude::*;

verus! {

/// Why an offset request could not be resolved.
#[derive(Debug, Clone, Copy, PartialEq, Eq)]
pub enum SeekError {
    /// A positive offset pointed past the end of the source.
    OutOfRange,
}

/// Where a dump starts: the absolute position to seek to, if any seek is
/// needed at all, and the offset label carried by the first output row.
#[derive(Debug, Clone, Copy, PartialEq, Eq)]
pub struct ResolvedPosition {
    pub seek_to: Option<usize>,
    pub display_offset: usize,
}

/// Resolves a raw signed offset request against a source of `source_len`
/// bytes. Zero means no seek and a zero display offset; a positive offset
/// seeks forward from the start and fails when it points past the end; a
/// negative offset seeks backward from the end, clamping to the very start
/// when its magnitude exceeds the source length.
pub fn resolve(raw_offset: i64, source_len: usize) -> (r: Result<ResolvedPosition, SeekError>)
    ensures
        r is Err <==> raw_offset as int > source_len as int,
        r is Err ==> r == Err::<ResolvedPosition, SeekError>(SeekError::OutOfRange),
        raw_offset == 0 ==> (r == Ok::<ResolvedPosition, SeekError>(
            ResolvedPosition { seek_to: None, display_offset: 0 },
        )),
        raw_offset > 0 && raw_offset as int <= source_len as int ==> (r == Ok::<
            ResolvedPosition,
            SeekError,
        >(
            ResolvedPosition {
                seek_to: Some(raw_offset as usize),
                display_offset: raw_offset as usize,
            },
        )),
        raw_offset < 0 && -(raw_offset as int) <= source_len as int ==> (r == Ok::<
            ResolvedPosition,
            SeekError,
        >(
            ResolvedPosition {
                seek_to: Some((source_len as int + raw_offset as int) as usize),
                display_offset: (source_len as int + raw_offset as int) as usize,
            },
        )),
        raw_offset < 0 && -(raw_offset as int) > source_len as int ==> (r == Ok::<
            ResolvedPosition,
            SeekError,
        >(ResolvedPosition { seek_to: Some(0), display_offset: 0 })),
{
    if raw_offset == 0 {
        Ok(ResolvedPosition { seek_to: None, display_offset: 0 })
    } else if raw_offset > 0 {
        if raw_offset as u64 <= source_len as u64 {
            Ok(
                ResolvedPosition {
                    seek_to: Some(raw_offset as usize),
                    display_offset: raw_offset as usize,
                },
            )
        } else {
            Err(SeekError::OutOfRange)
        }
    } else {
        let k: u64 = if raw_offset == i64::MIN {
            9223372036854775808u64
        } else {
            (-raw_offset) as u64
        };
        if k <= source_len as u64 {
            let pos: usize = source_len - (k as usize);
            Ok(ResolvedPosition { seek_to: Some(pos), display_offset: pos })
        } else {
            Ok(ResolvedPosition { seek_to: Some(0), display_offset: 0 })
        }
    }
}

} // verus!
