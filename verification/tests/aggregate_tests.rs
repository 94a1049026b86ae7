use dynwinrt::error::Win32Error;
use dynwinrt::win32::{Cleanup, Type, Value};
use dynwinrt::win32_aggregate::{
    field_size, AggregateResultField, NativeAggregateBuffer, NativeAggregatePointerLayout,
};
use dynwinrt::win32_resource::ResourceTable;
use std::sync::Arc;

const WORD: usize = std::mem::size_of::<usize>();

fn field(name: &str, offset: usize, typ: Type, cleanup: Cleanup) -> AggregateResultField {
    AggregateResultField {
        name: name.into(),
        offset,
        typ,
        cleanup,
    }
}

fn layout() -> Arc<NativeAggregatePointerLayout> {
    NativeAggregatePointerLayout::new(
        "Tests.NativeInfo".into(),
        2 * WORD + 8,
        WORD,
        vec![
            field("process", 0, Type::Handle, Cleanup::CloseHandle),
            field("thread", WORD, Type::Handle, Cleanup::CloseHandle),
            field("process_id", 2 * WORD, Type::U32, Cleanup::NotOwned),
            field("thread_id", 2 * WORD + 4, Type::U32, Cleanup::NotOwned),
        ],
    )
    .unwrap()
}

#[test]
fn pointer_layouts_reject_fields_outside_storage_and_overlaps() {
    assert_eq!(
        NativeAggregatePointerLayout::new(
            "Bad".into(),
            8,
            8,
            vec![field("outside", 8, Type::Handle, Cleanup::CloseHandle)],
        )
        .unwrap_err(),
        Win32Error::FieldExceedsStorage
    );
    assert_eq!(
        NativeAggregatePointerLayout::new(
            "Overlap".into(),
            16,
            8,
            vec![
                field("a", 0, Type::Handle, Cleanup::CloseHandle),
                field("b", 0, Type::Handle, Cleanup::CloseHandle),
            ],
        )
        .unwrap_err(),
        Win32Error::InvalidOrOverlappingField
    );
    assert_eq!(
        NativeAggregatePointerLayout::new(
            "Duplicate".into(),
            16,
            8,
            vec![
                field("a", 0, Type::U32, Cleanup::NotOwned),
                field("a", 8, Type::U32, Cleanup::NotOwned),
            ],
        )
        .unwrap_err(),
        Win32Error::InvalidOrOverlappingField
    );
    assert_eq!(
        NativeAggregatePointerLayout::new(
            "OwnedScalar".into(),
            8,
            8,
            vec![field("a", 0, Type::U32, Cleanup::CloseHandle)],
        )
        .unwrap_err(),
        Win32Error::InvalidOrOverlappingField
    );
    for (identity, size, alignment) in [("", 8, 8), ("Zero", 0, 8), ("Odd", 12, 8), ("Big", 16, 16)] {
        assert_eq!(
            NativeAggregatePointerLayout::new(identity.into(), size, alignment, vec![]).unwrap_err(),
            Win32Error::InvalidPointerLayout
        );
    }
    let layout = layout();
    assert_eq!(layout.identity(), "Tests.NativeInfo");
    assert_eq!(layout.size(), 2 * WORD + 8);
    assert_eq!(layout.alignment(), WORD);
    assert_eq!(layout.fields().len(), 4);
    assert_eq!(field_size(Type::Handle), WORD);
    assert_eq!(field_size(Type::I16), 2);
}

#[test]
fn storage_is_written_read_and_initialized_without_adopting_handles() {
    let layout = layout();
    let mut bytes = vec![0u8; layout.size()];
    bytes[..WORD].copy_from_slice(&0x1234usize.to_ne_bytes());
    bytes[WORD..2 * WORD].copy_from_slice(&0x1234usize.to_ne_bytes());
    for initialize in [false, true] {
        let mut buffer = NativeAggregateBuffer::new(
            Arc::clone(&layout),
            if initialize { Some(bytes.as_slice()) } else { None },
        )
        .unwrap();
        if !initialize {
            buffer.write(0, &bytes).unwrap();
        }
        assert_eq!(buffer.bytes().unwrap(), bytes);
        for field in 0..2 {
            assert_eq!(
                buffer.field_value(field).unwrap_err(),
                Win32Error::OutputsBeforeSuccess
            );
            assert!(buffer.take_field(field).is_err());
        }
        assert_eq!(buffer.require_success(), Err(Win32Error::OutputsBeforeSuccess));
    }
    assert_eq!(
        NativeAggregateBuffer::new(Arc::clone(&layout), Some(&[0u8; 3])).unwrap_err(),
        Win32Error::InitializationWrongSize
    );
    let mut buffer = NativeAggregateBuffer::new(Arc::clone(&layout), None).unwrap();
    let scalar_offset = 2 * WORD;
    buffer.write(scalar_offset, &99u32.to_ne_bytes()).unwrap();
    let read = buffer.read(scalar_offset, 4).unwrap();
    assert_eq!(u32::from_ne_bytes(read.try_into().unwrap()), 99);
    assert_eq!(
        buffer.write(layout.size(), &[1]).unwrap_err(),
        Win32Error::AccessExceedsStorage
    );
    buffer.write(layout.size(), &[]).unwrap();
    assert_eq!(buffer.read(layout.size() - 1, 2).unwrap_err(), Win32Error::AccessExceedsStorage);
    assert_eq!(buffer.field_index("thread_id"), Some(3));
    assert_eq!(buffer.field_index("missing"), None);
}

#[test]
fn legacy_adoption_transfers_ownership_once_and_cannot_be_rewritten() {
    let layout = layout();
    let mut table = ResourceTable::new();
    let mut buffer = NativeAggregateBuffer::new(Arc::clone(&layout), None).unwrap();
    buffer.write(0, &0x4321usize.to_ne_bytes()).unwrap();
    buffer.write(2 * WORD, &42u32.to_ne_bytes()).unwrap();
    buffer.mark_legacy(true, &mut table).unwrap();
    buffer.require_success().unwrap();
    let owner = buffer.field_value(0).unwrap().resource().unwrap();
    assert_eq!(table.get(owner).raw(), 0x4321);
    assert!(matches!(buffer.field_value(1).unwrap(), Value::Handle(0)));
    assert!(matches!(buffer.field_value(2).unwrap(), Value::U32(42)));
    assert_eq!(table.len(), 1);
    assert!(buffer.pending_raw_cleanups().is_empty());
    let taken = buffer.take_field(0).unwrap();
    assert_eq!(taken.resource(), Some(owner));
    assert!(matches!(buffer.take_field(0).unwrap(), Value::Handle(0)));
    assert_eq!(buffer.read(0, WORD).unwrap(), vec![0u8; WORD]);
    assert_eq!(
        buffer.mark_legacy(false, &mut table).unwrap_err(),
        Win32Error::OwnershipOverwrite
    );
    buffer.mark_legacy(true, &mut table).unwrap();
    assert_eq!(table.len(), 1);
    assert_eq!(buffer.take_field(9).unwrap_err(), Win32Error::UnknownField);
}

#[test]
fn failed_calls_make_every_field_unavailable() {
    let mut table = ResourceTable::new();
    let mut buffer = NativeAggregateBuffer::new(layout(), None).unwrap();
    buffer.write(0, &0x4321usize.to_ne_bytes()).unwrap();
    buffer.mark_legacy(false, &mut table).unwrap();
    assert_eq!(table.len(), 0);
    assert_eq!(buffer.field_value(0).unwrap_err(), Win32Error::OutputsAfterFailure);
    assert_eq!(buffer.require_success(), Err(Win32Error::OutputsAfterFailure));
}

#[test]
fn safe_writes_cannot_replace_pending_raw_cleanup_targets() {
    let mut table = ResourceTable::new();
    let mut buffer = NativeAggregateBuffer::new(layout(), None).unwrap();
    buffer.write(0, &0x10usize.to_ne_bytes()).unwrap();
    buffer.write(WORD, &0x20usize.to_ne_bytes()).unwrap();
    buffer.record_native(true);
    buffer.deliver_field(0, &mut table);
    let pending = buffer.pending_raw_cleanups();
    assert_eq!(pending.len(), 1);
    assert_eq!(pending[0].index, 1);
    assert_eq!(pending[0].value, 0x20);
    assert_eq!(pending[0].cleanup, Cleanup::CloseHandle);
    let original = buffer.bytes().unwrap();
    for (start, length) in [(WORD, WORD), (WORD, 1), (2 * WORD - 1, 1), (WORD - 1, 2), (0, 2 * WORD + 8)] {
        let error = buffer.write(start, &vec![0xAA; length]).unwrap_err();
        assert!(error.message().contains("owned result awaits cleanup"));
        assert_eq!(buffer.bytes().unwrap(), original);
    }
    buffer.write(WORD, &[]).unwrap();
    buffer.write(0, &0x99usize.to_ne_bytes()).unwrap();
    let owner = buffer.field_value(0).unwrap().resource().unwrap();
    assert_eq!(table.get(owner).raw(), 0x10);
    buffer.finish_raw_cleanup(1);
    assert!(buffer.pending_raw_cleanups().is_empty());
    assert_eq!(buffer.read(WORD, WORD).unwrap(), vec![0u8; WORD]);
    buffer.write(WORD, &0x30usize.to_ne_bytes()).unwrap();
}

/// Prepares storage for reuse the way the native layer does: pending raw
/// cleanups succeed, owned results are closed, then the storage is reset.
fn prepare(buffer: &mut NativeAggregateBuffer, table: &mut ResourceTable) -> Vec<usize> {
    let mut released = Vec::new();
    for pending in buffer.pending_raw_cleanups() {
        released.push(pending.value);
        buffer.finish_raw_cleanup(pending.index);
    }
    for (_, id) in buffer.owned_results() {
        let mut owner = table.get(id);
        released.push(owner.raw());
        owner.finish_close(Ok(())).unwrap();
        table.set(id, owner);
    }
    let count = buffer.layout().fields().len();
    buffer.finish_prepare(&vec![false; count], None).unwrap();
    released
}

#[test]
fn safe_aggregate_storage_does_not_adopt_borrowed_handles() {
    let handle = 0x1234usize;
    let layout = layout();
    let mut bytes = vec![0; layout.size()];
    for offset in [0, WORD] {
        bytes[offset..offset + WORD].copy_from_slice(&handle.to_ne_bytes());
    }
    for initialize in [false, true] {
        for prepare_first in [false, true] {
            let mut table = ResourceTable::new();
            let mut buffer = NativeAggregateBuffer::new(
                Arc::clone(&layout),
                if initialize { Some(bytes.as_slice()) } else { None },
            )
            .unwrap();
            if !initialize {
                buffer.write(0, &bytes).unwrap();
            }
            assert_eq!(buffer.bytes().unwrap(), bytes);
            for field in 0..2 {
                assert!(buffer.field_value(field).is_err());
                assert!(buffer.take_field(field).is_err());
            }
            if prepare_first {
                assert!(prepare(&mut buffer, &mut table).is_empty());
            }
            assert!(buffer.pending_raw_cleanups().is_empty());
            assert_eq!(table.len(), 0);
        }
    }
}

#[test]
fn preparing_for_reuse_closes_owned_results_and_clears_fields() {
    let mut table = ResourceTable::new();
    let mut buffer = NativeAggregateBuffer::new(layout(), None).unwrap();
    buffer.write(0, &0x51usize.to_ne_bytes()).unwrap();
    buffer.write(WORD, &0x52usize.to_ne_bytes()).unwrap();
    buffer.write(2 * WORD, &9u32.to_ne_bytes()).unwrap();
    buffer.mark_legacy(true, &mut table).unwrap();
    let owners = buffer.owned_results();
    assert_eq!(owners.len(), 2);
    assert_eq!((owners[0].0, owners[1].0), (0, 1));
    let mut released = prepare(&mut buffer, &mut table);
    released.sort();
    assert_eq!(released, vec![0x51, 0x52]);
    assert!(table.get(owners[0].1).is_closed());
    assert_eq!(buffer.bytes().unwrap(), vec![0u8; buffer.layout().size()]);
    assert_eq!(buffer.field_value(2).unwrap_err(), Win32Error::OutputsAfterFailure);

    let mut buffer = NativeAggregateBuffer::new(layout(), None).unwrap();
    buffer.write(0, &0x61usize.to_ne_bytes()).unwrap();
    buffer.mark_legacy(true, &mut table).unwrap();
    let kept = vec![true, false, false, false];
    assert_eq!(
        buffer.finish_prepare(&kept, Some(0x80070005u32 as i32)).unwrap_err(),
        Win32Error::Native(0x80070005u32 as i32)
    );
    assert!(buffer.field_value(0).unwrap().resource().is_some());
    assert_eq!(buffer.read(0, WORD).unwrap(), 0x61usize.to_ne_bytes().to_vec());
    buffer.require_success().unwrap();
}
