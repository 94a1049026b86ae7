# dynwinrt

Verified planning, validation and ownership logic for calling flat Win32
exports and WinRT collections dynamically.

* `src/` is the verified library (Verus). It decides everything a native call
  depends on: which plans and contracts are valid, how arguments become native
  storage, how results are classified, adopted, aliased or released, how owned
  resources are leased and closed, how caller-owned aggregate storage is read,
  written and delivered, how asynchronous file I/O is admitted and retired, and
  the state of dynamically built vectors, maps and module caches.
* `app/` holds the native edges: loading modules, the libffi call, the native
  release functions, the completion port and its workers, boxing of WinRT
  property values, Windows App SDK bootstrapping and the serde form of call
  contracts. It asks the library for every decision.
* `tests/` exercises the library from outside, simulating native functions
  where a call would otherwise need Windows.
