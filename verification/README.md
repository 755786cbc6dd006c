# mini_rdbms_rs

The storage stack of a small relational database, written in Verus: each layer
states what it does in `requires` / `ensures` contracts over mathematical
models, and Verus proves the code against them.

Layers, from the bottom up:

- `storage`: a byte store addressed by offset (`StorageEngine`), its errors,
  and the decisions of the read and write loops of a file-backed store.
- `disk`: fixed-size pages laid end to end on a storage engine
  (`StorageDiskManager`); a page reads back as it was written.
- `page`: the slotted page format (`SlottedPageManager`): header, slot
  directory growing forward, records growing backward from the end. The
  format is modelled byte for byte; `page::laws` proves that a record reads
  back after insertion, reads as deleted after deletion, and that both leave
  the other records and the page type alone.
- `buffer`: a pool of pages in memory with least-recently-used eviction of
  unpinned pages (`LruBufferManager`); dirty pages are written back before
  they leave the pool, and pinned pages never leave it.
- `access`: records in a heap of slotted pages (`HeapAccessMethod`), on top of
  pages reached through the buffer pool (`BufferPoolPageAccessor`). Every page
  the heap writes ends in agreement with the disk, and
  `lemma_records_survive_reopen` proves that a stack rebuilt over the same
  disk reads the same records.
- `cli::executor`: runs insert / select / delete plans against an access
  method.

`app/` holds what touches the operating system: a file-backed storage engine
and a temporary-file helper.
