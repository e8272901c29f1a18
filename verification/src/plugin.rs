//! A plugin: a WebAssembly module with a function that takes a buffer of bytes and returns a
//! NUL-terminated string.
use vstd::prelude::*;
use wasmtime::{Engine, Instance, Memory, MemoryAccessError, Store, TypedFunc};

verus! {

#[verifier::external_type_specification]
#[verifier::external_body]
pub struct ExInstance(wasmtime::Instance);

#[verifier::external_type_specification]
#[verifier::external_body]
pub struct ExMemory(wasmtime::Memory);

#[verifier::external_type_specification]
#[verifier::external_body]
pub struct ExMemoryAccessError(wasmtime::MemoryAccessError);

#[verifier::external_type_specification]
#[verifier::external_body]
#[verifier::reject_recursive_types(T)]
pub struct ExStore<T: 'static>(wasmtime::Store<T>);

#[verifier::external_type_specification]
#[verifier::external_body]
#[verifier::reject_recursive_types(Params)]
#[verifier::reject_recursive_types(Results)]
pub struct ExTypedFunc<Params, Results>(wasmtime::TypedFunc<Params, Results>);

#[verifier::external_type_specification]
#[verifier::external_body]
pub struct ExEngine(wasmtime::Engine);

#[verifier::external_type_specification]
#[verifier::external_body]
pub struct ExWasmError(wasmtime::Error);

/// The fuel a plugin is given for loading and for each call: a budget of about as many
/// WebAssembly instructions. A plugin that runs out of it fails instead of running on.
pub const PLUGIN_FUEL: u64 = 1_000_000_000;

/// A step of loading a plugin: instantiating the module (and whether that succeeded), looking
/// up its `memory` export (and whether there is one), looking up its function by name (and
/// whether that succeeded).
pub enum LoadStep {
    Instantiate { wasm: Seq<u8>, fuel: u64, ok: bool },
    Memory { found: bool },
    Func { name: Seq<char>, ok: bool },
}

/// What a plugin did with wasmtime, one step at a time: a write of bytes into its memory (and
/// whether it succeeded), a refill of its fuel (or the error's message), a call of its function
/// (with the address it returned or the error's message), a read of one byte of its memory (or
/// `None` when the read failed).
pub enum PluginEvent {
    Write { offset: usize, data: Seq<u8>, ok: bool },
    Fuel { amount: u64, result: Result<(), Seq<char>> },
    Call { a: u32, b: u32, result: Result<u32, Seq<char>> },
    Read { addr: usize, byte: Option<u8> },
}

/// A result with its error message as text.
pub open spec fn result_view<T>(r: Result<T, String>) -> Result<T, Seq<char>> {
    match r {
        Ok(v) => Ok(v),
        Err(m) => Err(m@),
    }
}

/// `p` is the plugin `q` apart from its module's state and its record of events: the same
/// name, tag, module file, function and `dynamic` flag.
pub open spec fn same_plugin(p: Plugin, q: Plugin) -> bool {
    &&& p.name == q.name
    &&& p.tag == q.tag
    &&& p.wasm_file_path == q.wasm_file_path
    &&& p.plugin_func_name == q.plugin_func_name
    &&& p.dynamic == q.dynamic
}

/// A module being loaded: once instantiated, its instance and the store it lives in (private,
/// so they stay paired), with a record of the loading steps.
struct PluginLoad {
    parts: Option<(Instance, Store<()>)>,
    steps: Ghost<Seq<LoadStep>>,
}

impl PluginLoad {
    /// The loading steps taken so far.
    closed spec fn steps(self) -> Seq<LoadStep> {
        self.steps@
    }
}

/// wasmtime's `Engine::new` for a configuration that meters fuel, does not run plugins
/// asynchronously, and reserves little address space for memories (they are moved when they
/// grow, and bounds are checked explicitly), so that plugins load where address space is
/// limited; or the error. Trusted; nothing is stated of the engine.
#[verifier::external_body]
fn new_engine() -> Result<Engine, wasmtime::Error> {
    let mut config = wasmtime::Config::new();
    #[allow(deprecated)]
    config.async_support(false);
    config.consume_fuel(true);
    config.memory_reservation(1 << 20);
    config.memory_guard_size(0);
    config.memory_reservation_for_growth(0);
    Engine::new(&config)
}

/// The message of a wasmtime error (its `Display` form). Trusted; nothing is stated of it.
#[verifier::external_body]
fn error_text(e: &wasmtime::Error) -> String {
    e.to_string()
}

/// wasmtime's `Linker::instantiate` of the binary module `wasm`, compiled (`Module::from_binary`)
/// for `engine` into a new store of `engine` that holds `fuel`, with the host functions that
/// plugins import, `env.abort` and `env.console.log`, both doing nothing. Trusted: the step is
/// recorded with the bytes and the fuel it was given and whether it succeeded, and the instance
/// and its store are kept exactly when it succeeded. Everything is made from the one engine here,
/// so none of wasmtime's panics on mixed engines or stores can occur; the module's start
/// function runs on the given fuel. When it succeeds is not stated.
#[verifier::external_body]
fn instantiate_into(load: &mut PluginLoad, engine: &Engine, wasm: &[u8], fuel: u64) -> (r: Result<
    (),
    wasmtime::Error,
>)
    requires
        old(load).parts is None,
    ensures
        final(load).steps() == old(load).steps().push(
            (LoadStep::Instantiate { wasm: wasm@, fuel, ok: r is Ok }),
        ),
        final(load).parts is Some <==> r is Ok,
{
    let module = wasmtime::Module::from_binary(engine, wasm)?;
    let mut store = Store::try_new(engine, ())?;
    store.set_fuel(fuel)?;
    let mut linker = wasmtime::Linker::new(engine);
    linker.func_wrap("env", "abort", |_: wasmtime::Caller<'_, ()>, _: i32, _: i32, _: i32, _: i32| {})?;
    linker.func_wrap("env", "console.log", |_: wasmtime::Caller<'_, ()>, _: i32| {})?;
    let instance = linker.instantiate(&mut store, &module)?;
    load.parts = Some((instance, store));
    Ok(())
}

/// wasmtime's `Instance::get_memory` of the export `memory` of the loaded instance, in its own
/// store. Trusted: the lookup is recorded with whether it found a memory.
#[verifier::external_body]
fn export_memory(load: &mut PluginLoad) -> (r: Option<Memory>)
    requires
        old(load).parts is Some,
    ensures
        final(load).parts is Some,
        final(load).steps() == old(load).steps().push((LoadStep::Memory { found: r is Some })),
{
    let (instance, store) = load.parts.as_mut()?;
    instance.get_memory(store, "memory")
}

/// wasmtime's `Instance::get_typed_func` of the export `name`, as a function of two `u32`s to a
/// `u32`, of the loaded instance in its own store. Trusted: the lookup is recorded with the name
/// and whether it succeeded.
#[verifier::external_body]
fn typed_func(load: &mut PluginLoad, name: &str) -> (r: Result<
    TypedFunc<(u32, u32), u32>,
    wasmtime::Error,
>)
    requires
        old(load).parts is Some,
    ensures
        final(load).parts is Some,
        final(load).steps() == old(load).steps().push(
            (LoadStep::Func { name: name@, ok: r is Ok }),
        ),
{
    let (instance, store) = load.parts.as_mut().unwrap();
    instance.get_typed_func::<(u32, u32), u32>(store, name)
}

/// wasmtime's `Memory::data_size` of the plugin's own memory. Trusted: the runtime's recorded
/// size becomes the memory's size; nothing else changes.
#[verifier::external_body]
fn read_memory_size(rt: &mut PluginRuntime) -> (n: usize)
    ensures
        final(rt).mem_size() == n,
        final(rt).log() == old(rt).log(),
        final(rt).load_steps() == old(rt).load_steps(),
{
    rt.memory.data_size(&rt.store)
}

/// wasmtime's `Memory::write` on the plugin's own memory and store: copies `data` into the
/// memory at `offset`; it succeeds exactly when `offset + data.len()` is within the memory's
/// size, and otherwise writes nothing. Trusted: the write is recorded as an event with whether
/// it succeeded; the memory's content is not visible to Verus and is not stated. The memory and
/// the store are private to the runtime and come from one instantiation in `Plugin::from_wasm`.
#[verifier::external_body]
fn memory_write(rt: &mut PluginRuntime, offset: usize, data: &[u8]) -> (r: Result<(), MemoryAccessError>)
    ensures
        r is Ok <==> offset + data@.len() <= old(rt).mem_size(),
        final(rt).mem_size() == old(rt).mem_size(),
        final(rt).load_steps() == old(rt).load_steps(),
        final(rt).log() == old(rt).log().push(
            (PluginEvent::Write { offset, data: data@, ok: r is Ok }),
        ),
{
    rt.memory.write(&mut rt.store, offset, data)
}

/// wasmtime's `Memory::read` of one byte at `addr` of the plugin's own memory; it succeeds
/// exactly when `addr` is within the memory's size. Trusted: the read is recorded as an event
/// with the byte it gave; which byte that is is not visible to Verus and is not stated.
#[verifier::external_body]
fn memory_read_byte(rt: &mut PluginRuntime, addr: usize) -> (r: Result<u8, MemoryAccessError>)
    ensures
        r is Ok <==> addr < old(rt).mem_size(),
        final(rt).mem_size() == old(rt).mem_size(),
        final(rt).load_steps() == old(rt).load_steps(),
        final(rt).log() == old(rt).log().push(
            (PluginEvent::Read {
                addr,
                byte: match r {
                    Ok(b) => Some(b),
                    Err(_) => None,
                },
            }),
        ),
{
    let mut buf = [0u8; 1];
    rt.memory.read(&rt.store, addr, &mut buf).map(|_| buf[0])
}

/// wasmtime's `Store::set_fuel` on the plugin's store, or the error's message. Trusted: the
/// refill is recorded as an event with the amount and the result.
#[verifier::external_body]
fn set_fuel(rt: &mut PluginRuntime, amount: u64) -> (r: Result<(), String>)
    ensures
        final(rt).mem_size() == old(rt).mem_size(),
        final(rt).load_steps() == old(rt).load_steps(),
        final(rt).log() == old(rt).log().push((PluginEvent::Fuel { amount, result: result_view(r) })),
{
    rt.store.set_fuel(amount).map_err(|e| e.to_string())
}

/// wasmtime's `TypedFunc::call` of the plugin's function with two `u32` arguments, in its own
/// store; its error as its message. The call uses the store's fuel, and a function that runs
/// out of it fails. Trusted: the call is recorded as an event with its arguments and result,
/// and the memory's size does not shrink (WebAssembly memories only grow); what the plugin
/// computes is not visible to Verus and is not stated.
#[verifier::external_body]
fn call_func(rt: &mut PluginRuntime, a: u32, b: u32) -> (r: Result<u32, String>)
    ensures
        final(rt).mem_size() >= old(rt).mem_size(),
        final(rt).load_steps() == old(rt).load_steps(),
        final(rt).log() == old(rt).log().push(
            (PluginEvent::Call { a, b, result: result_view(r) }),
        ),
{
    rt.plugin_func.call(&mut rt.store, (a, b)).map_err(|e| e.to_string())
}

/// The message of the error that std's `String::from_utf8` gives for `bytes` when they are not
/// valid UTF-8 (it tells where the first invalid sequence starts).
pub uninterp spec fn utf8_error_message(bytes: Seq<u8>) -> Seq<char>;

/// std's `String::from_utf8`: the string that `bytes` encode, when they are valid UTF-8, else
/// the error's message. Trusted: it succeeds exactly on valid UTF-8, decoding it; the message
/// is named by `utf8_error_message`, a function of the bytes alone.
#[verifier::external_body]
fn string_from_utf8(bytes: Vec<u8>) -> (r: Result<String, String>)
    ensures
        r is Ok <==> vstd::utf8::valid_utf8(bytes@),
        r matches Ok(s) ==> s@ == vstd::utf8::decode_utf8(bytes@),
        r matches Err(m) ==> m@ == utf8_error_message(bytes@),
{
    String::from_utf8(bytes).map_err(|e| e.to_string())
}

/// Why calling a plugin failed.
pub enum PluginCallError {
    /// The input did not fit in the plugin's memory, or the output ran past its end.
    MemoryAccess,
    /// The call itself failed, with this message.
    Call(String),
    /// The output is not valid UTF-8, with the decoder's message.
    InvalidUtf8(String),
    /// The output never ended before the end of the address space.
    Unterminated,
}

impl PluginCallError {
    /// The error's message.
    pub open spec fn spec_message(self) -> Seq<char> {
        match self {
            PluginCallError::MemoryAccess => "out of bounds memory access"@,
            PluginCallError::Call(m) => m@,
            PluginCallError::InvalidUtf8(m) => m@,
            PluginCallError::Unterminated => "plugin output is not terminated"@,
        }
    }

    /// The error's message: wasmtime's for a memory access out of bounds, the call's or the
    /// decoder's own message, or a note that the output never ended.
    pub fn message(&self) -> (r: String)
        ensures
            r@ == self.spec_message(),
    {
        match self {
            PluginCallError::MemoryAccess => "out of bounds memory access".to_owned(),
            PluginCallError::Call(m) => m.clone(),
            PluginCallError::InvalidUtf8(m) => m.clone(),
            PluginCallError::Unterminated => "plugin output is not terminated".to_owned(),
        }
    }
}

/// A plugin's instantiated module: its memory and function, the store they belong to (all
/// private, so they stay paired), the steps that loaded it, the memory's size, and a record of
/// what was done with the module since.
pub struct PluginRuntime {
    instance: Instance,
    memory: Memory,
    store: Store<()>,
    plugin_func: TypedFunc<(u32, u32), u32>,
    loaded: Ghost<Seq<LoadStep>>,
    size: Ghost<nat>,
    events: Ghost<Seq<PluginEvent>>,
}

impl PluginRuntime {
    /// What has been done with the module, in order.
    pub closed spec fn log(self) -> Seq<PluginEvent> {
        self.events@
    }

    /// The steps that loaded the module.
    pub closed spec fn load_steps(self) -> Seq<LoadStep> {
        self.loaded@
    }

    /// The size of the module's memory, in bytes.
    pub closed spec fn mem_size(self) -> nat {
        self.size@
    }
}

/// A loaded plugin: its name, the custom tag it renders, where its module came from, the
/// function it exports, whether its output may change between calls, and its instantiated
/// module.
pub struct Plugin {
    pub name: String,
    pub tag: String,
    pub wasm_file_path: String,
    pub plugin_func_name: String,
    pub dynamic: bool,
    pub runtime: PluginRuntime,
}

/// The text that std's `Debug` gives a string: quoted, with its special characters escaped.
pub uninterp spec fn spec_debug_str(s: Seq<char>) -> Seq<char>;

/// std's `Debug` of a string (`format!("{:?}", s)`). Trusted: its result is named by
/// `spec_debug_str`, a function of the string alone.
#[verifier::external_body]
fn debug_str(s: &str) -> (r: String)
    ensures
        r@ == spec_debug_str(s@),
{
    format!("{:?}", s)
}

/// The debug text of a plugin: its name, tag, module file and function, in `Debug` form.
pub open spec fn plugin_debug_text(p: Plugin) -> Seq<char> {
    "Plugin { name: "@ + spec_debug_str(p.name@) + ", tag: "@ + spec_debug_str(p.tag@)
        + ", wasm_file_path: "@ + spec_debug_str(p.wasm_file_path@) + ", plugin_func_name: "@
        + spec_debug_str(p.plugin_func_name@) + " }"@
}

/// The position at which a plugin's input is written into its memory.
pub const INPUT_OFFSET: u32 = 40_000;

/// What the output's bytes give: their UTF-8 decoding when they are valid UTF-8, else the
/// decoder's error.
pub open spec fn decoded(bytes: Seq<u8>, r: Result<String, PluginCallError>) -> bool {
    if vstd::utf8::valid_utf8(bytes) {
        (r matches Ok(s) && s@ == vstd::utf8::decode_utf8(bytes))
    } else {
        (r matches Err(PluginCallError::InvalidUtf8(m)) && m@ == utf8_error_message(bytes))
    }
}

/// The output of a plugin from its bytes (see `decoded`).
pub fn output_from_bytes(bytes: Vec<u8>) -> (r: Result<String, PluginCallError>)
    ensures
        decoded(bytes@, r),
{
    match string_from_utf8(bytes) {
        Ok(s) => Ok(s),
        Err(m) => Err(PluginCallError::InvalidUtf8(m)),
    }
}

/// The byte that a read event gave (0 for any other event).
pub open spec fn read_byte(e: PluginEvent) -> u8 {
    match e {
        PluginEvent::Read { byte: Some(b), .. } => b,
        _ => 0,
    }
}

/// Reads of the bytes `out`, one at a time, from `start` on.
pub open spec fn read_events(start: int, out: Seq<u8>) -> Seq<PluginEvent> {
    Seq::new(out.len(), |i: int| PluginEvent::Read { addr: (start + i) as usize, byte: Some(out[i]) })
}

/// The scan of a plugin's output from `start`: `reads` reads the bytes from `start` on, one at
/// a time, up to the first NUL, a failed read, or a non-NUL byte at the last address; `r` is
/// then the decoded bytes before the NUL, `MemoryAccess`, or `Unterminated`.
pub open spec fn scan_trace(start: int, reads: Seq<PluginEvent>, r: Result<String, PluginCallError>) -> bool {
    let n = reads.len() - 1;
    let out = Seq::new(n as nat, |i: int| read_byte(reads[i]));
    &&& reads.len() >= 1
    &&& forall|i: int| 0 <= i < n ==> out[i] != 0
    &&& reads.take(n) == read_events(start, out)
    &&& reads[n] matches PluginEvent::Read { addr, byte } && addr == start + n && match byte {
        None => r matches Err(PluginCallError::MemoryAccess),
        Some(b) => if b == 0 {
            decoded(out, r)
        } else {
            start + n == u32::MAX && (r matches Err(PluginCallError::Unterminated))
        },
    }
}

/// A call of a plugin on `input`, as its events `ev` and its result `r`: the input is written
/// at `INPUT_OFFSET` (a failed write ends the call with `MemoryAccess`); the plugin's fuel is
/// refilled to `PLUGIN_FUEL` (a failure ends it with `Call` and the message); the function is
/// called with `INPUT_OFFSET` and the input's length modulo 2^32 (a failed call ends it with
/// `Call` and the message); the output is then scanned from the address the function returned.
pub open spec fn call_trace(input: Seq<u8>, ev: Seq<PluginEvent>, r: Result<String, PluginCallError>) -> bool {
    &&& ev.len() >= 1
    &&& ev[0] matches PluginEvent::Write { offset, data, ok } && offset == INPUT_OFFSET && data
        == input && if !ok {
        ev.len() == 1 && (r matches Err(PluginCallError::MemoryAccess))
    } else {
        &&& ev.len() >= 2
        &&& ev[1] matches PluginEvent::Fuel { amount, result } && amount == PLUGIN_FUEL && match result {
            Err(m) => ev.len() == 2 && (r matches Err(PluginCallError::Call(e)) && e@ == m),
            Ok(_) => {
                &&& ev.len() >= 3
                &&& ev[2] matches PluginEvent::Call { a, b, result } && a == INPUT_OFFSET && b
                    == input.len() % 0x1_0000_0000 && match result {
                    Err(m) => ev.len() == 3 && (r matches Err(PluginCallError::Call(e)) && e@ == m),
                    Ok(p) => scan_trace(p as int, ev.skip(3), r),
                }
            },
        }
    }
}

/// Every read among `ev` succeeded exactly when its address was within `size`.
pub open spec fn reads_within(ev: Seq<PluginEvent>, size: nat) -> bool {
    forall|i: int|
        0 <= i < ev.len() ==> (#[trigger] ev[i] matches PluginEvent::Read { addr, byte } ==> (byte is Some
            <==> addr < size))
}

/// A call of `p0` on `input` left the plugin `p1` and gave `r`: the same plugin, loaded by the
/// same steps, whose record grew by the events of the call (see `call_trace`); the write of the
/// input succeeded exactly when it fit in the memory, the memory did not shrink, and each read
/// succeeded exactly when its address was within the memory after the call.
pub open spec fn plugin_called(
    p0: Plugin,
    p1: Plugin,
    input: Seq<u8>,
    r: Result<String, PluginCallError>,
) -> bool {
    let ev = p1.log().skip(p0.log().len() as int);
    &&& same_plugin(p1, p0)
    &&& p1.runtime.load_steps() == p0.runtime.load_steps()
    &&& p0.log().len() <= p1.log().len()
    &&& p1.log().take(p0.log().len() as int) == p0.log()
    &&& call_trace(input, ev, r)
    &&& (ev[0] matches PluginEvent::Write { ok, .. } && (ok <==> INPUT_OFFSET + input.len()
        <= p0.runtime.mem_size()))
    &&& p0.runtime.mem_size() <= p1.runtime.mem_size()
    &&& reads_within(ev, p1.runtime.mem_size())
}

/// The steps of loading `wasm` with the function `name` that succeeded: instantiating it on
/// `PLUGIN_FUEL`, finding its memory, and finding the function.
pub open spec fn loaded_steps(wasm: Seq<u8>, name: Seq<char>) -> Seq<LoadStep> {
    seq![
        LoadStep::Instantiate { wasm, fuel: PLUGIN_FUEL, ok: true },
        LoadStep::Memory { found: true },
        LoadStep::Func { name, ok: true },
    ]
}

impl Plugin {
    /// What has been done with the plugin's module, in order.
    pub open spec fn log(self) -> Seq<PluginEvent> {
        self.runtime.log()
    }

    /// The plugin's debug text (see `plugin_debug_text`).
    pub fn debug_text(&self) -> (r: String)
        ensures
            r@ == plugin_debug_text(*self),
    {
        let mut r = "Plugin { name: ".to_owned();
        r.append(debug_str(self.name.as_str()).as_str());
        r.append(", tag: ");
        r.append(debug_str(self.tag.as_str()).as_str());
        r.append(", wasm_file_path: ");
        r.append(debug_str(self.wasm_file_path.as_str()).as_str());
        r.append(", plugin_func_name: ");
        r.append(debug_str(self.plugin_func_name.as_str()).as_str());
        r.append(" }");
        r
    }

    /// Loads a plugin from the binary module `wasm`: makes an engine that meters fuel,
    /// instantiates the module on `PLUGIN_FUEL` with the host functions plugins import
    /// (`env.abort` and `env.console.log`, which do nothing), and takes its `memory` export and
    /// its function `plugin_func_name`; or the message of the step that failed. The new
    /// plugin's runtime was loaded by exactly those steps on `wasm` and `plugin_func_name`,
    /// nothing has been done with it yet, and its memory's size is recorded.
    pub fn from_wasm(
        name: &str,
        tag: &str,
        wasm_path: &str,
        plugin_func_name: &str,
        dynamic: bool,
        wasm: &[u8],
    ) -> (r: Result<Plugin, String>)
        ensures
            r matches Ok(p) ==> p.name@ == name@ && p.tag@ == tag@ && p.wasm_file_path@
                == wasm_path@ && p.plugin_func_name@ == plugin_func_name@ && p.dynamic == dynamic
                && p.log() == Seq::<PluginEvent>::empty() && p.runtime.load_steps()
                == loaded_steps(wasm@, plugin_func_name@),
    {
        let engine = match new_engine() {
            Ok(e) => e,
            Err(e) => return Err(error_text(&e)),
        };
        let mut load = PluginLoad { parts: None, steps: Ghost(Seq::empty()) };
        match instantiate_into(&mut load, &engine, wasm, PLUGIN_FUEL) {
            Ok(()) => {},
            Err(e) => return Err(error_text(&e)),
        }
        let memory = match export_memory(&mut load) {
            Some(m) => m,
            None => return Err("memory export not found".to_owned()),
        };
        let plugin_func = match typed_func(&mut load, plugin_func_name) {
            Ok(f) => f,
            Err(e) => return Err(error_text(&e)),
        };
        let ghost steps = load.steps();
        assert(steps =~= loaded_steps(wasm@, plugin_func_name@));
        let (instance, store) = match load.parts {
            Some(parts) => parts,
            None => return Err("memory export not found".to_owned()),
        };
        let mut runtime = PluginRuntime {
            instance,
            memory,
            store,
            plugin_func,
            loaded: Ghost(steps),
            size: Ghost(0),
            events: Ghost(Seq::empty()),
        };
        read_memory_size(&mut runtime);
        Ok(Plugin {
            name: name.to_owned(),
            tag: tag.to_owned(),
            wasm_file_path: wasm_path.to_owned(),
            plugin_func_name: plugin_func_name.to_owned(),
            dynamic,
            runtime,
        })
    }

    /// Runs the plugin on `input`: writes it at `INPUT_OFFSET`, refills its fuel, calls the
    /// function with that offset and the input's length (modulo 2^32), and reads the output
    /// from the returned address up to the first NUL byte. The output is returned when it is
    /// valid UTF-8 (see `call_trace` and `plugin_called`).
    #[verifier::loop_isolation(false)]
    pub fn call(&mut self, input: &Vec<u8>) -> (r: Result<String, PluginCallError>)
        ensures
            plugin_called(*old(self), *final(self), input@, r),
    {
        let ghost l0 = self.log();
        let ghost s0 = self.runtime.mem_size();
        let offset: u32 = INPUT_OFFSET;
        let w = memory_write(&mut self.runtime, offset as usize, input.as_slice());
        let ghost e0 = PluginEvent::Write { offset: offset as usize, data: input@, ok: w is Ok };
        assert(self.log() == l0.push(e0));
        if w.is_err() {
            let r = Err(PluginCallError::MemoryAccess);
            proof {
                assert(self.log().take(l0.len() as int) =~= l0);
                assert(self.log().skip(l0.len() as int) =~= seq![e0]);
            }
            return r;
        }
        let f = set_fuel(&mut self.runtime, PLUGIN_FUEL);
        let ghost e1 = PluginEvent::Fuel { amount: PLUGIN_FUEL, result: result_view(f) };
        assert(self.log() =~= l0 + seq![e0, e1]);
        match f {
            Ok(()) => {},
            Err(m) => {
                let r = Err(PluginCallError::Call(m));
                proof {
                    assert(self.log().take(l0.len() as int) =~= l0);
                    assert(self.log().skip(l0.len() as int) =~= seq![e0, e1]);
                }
                return r;
            },
        }
        let n: u64 = input.len() as u64;
        #[verifier::truncate]
        let len: u32 = n as u32;
        assert(len == n % 0x1_0000_0000) by (bit_vector)
            requires
                len == n as u32,
        ;
        let c = call_func(&mut self.runtime, offset, len);
        let ghost e2 = PluginEvent::Call { a: offset, b: len, result: result_view(c) };
        let ghost head = seq![e0, e1, e2];
        let ghost s1 = self.runtime.mem_size();
        assert(self.log() =~= l0 + head);
        let res_ptr = match c {
            Ok(p) => p,
            Err(m) => {
                let r = Err(PluginCallError::Call(m));
                proof {
                    assert(self.log().take(l0.len() as int) =~= l0);
                    assert(self.log().skip(l0.len() as int) =~= head);
                }
                return r;
            },
        };
        let mut output: Vec<u8> = Vec::new();
        let mut curr_ptr: u32 = res_ptr;
        proof {
            assert(read_events(res_ptr as int, output@) =~= Seq::<PluginEvent>::empty());
        }
        loop
            invariant
                forall|i: int| 0 <= i < output@.len() ==> output@[i] != 0,
                curr_ptr == res_ptr + output@.len(),
                output@.len() > 0 ==> res_ptr + output@.len() <= s1,
                self.log() == l0 + head + read_events(res_ptr as int, output@),
                self.runtime.mem_size() == s1,
                self.runtime.load_steps() == old(self).runtime.load_steps(),
                same_plugin(*self, *old(self)),
                old(self).log() == l0,
            decreases u32::MAX - curr_ptr,
        {
            let ghost out0 = output@;
            let rb = memory_read_byte(&mut self.runtime, curr_ptr as usize);
            let b = match rb {
                Ok(b) => b,
                Err(_) => {
                    let r = Err(PluginCallError::MemoryAccess);
                    proof {
                        let reads = read_events(res_ptr as int, out0).push(
                            PluginEvent::Read { addr: curr_ptr as usize, byte: None },
                        );
                        assert(self.log() =~= l0 + (head + reads));
                        assert(self.log().take(l0.len() as int) =~= l0);
                        assert(self.log().skip(l0.len() as int) =~= head + reads);
                        assert((head + reads).skip(3) =~= reads);
                        let n = reads.len() - 1;
                        assert(Seq::new(n as nat, |i: int| read_byte(reads[i])) =~= out0);
                        assert(reads.take(n) =~= read_events(res_ptr as int, out0));
                    }
                    return r;
                },
            };
            if b == 0 {
                proof {
                    let reads = read_events(res_ptr as int, out0).push(
                        PluginEvent::Read { addr: curr_ptr as usize, byte: Some(0u8) },
                    );
                    assert(self.log() =~= l0 + (head + reads));
                }
                break;
            }
            output.push(b);
            proof {
                assert(read_events(res_ptr as int, output@) =~= read_events(res_ptr as int, out0).push(
                    PluginEvent::Read { addr: curr_ptr as usize, byte: Some(b) },
                ));
            }
            if curr_ptr == u32::MAX {
                let r = Err(PluginCallError::Unterminated);
                proof {
                    let reads = read_events(res_ptr as int, output@);
                    assert(self.log() =~= l0 + (head + reads));
                    assert(self.log().take(l0.len() as int) =~= l0);
                    assert(self.log().skip(l0.len() as int) =~= head + reads);
                    assert((head + reads).skip(3) =~= reads);
                    let n = reads.len() - 1;
                    assert(Seq::new(n as nat, |i: int| read_byte(reads[i])) =~= out0);
                    assert(reads.take(n) =~= read_events(res_ptr as int, out0));
                }
                return r;
            }
            curr_ptr = curr_ptr + 1;
        }
        let ghost out = output@;
        let ghost reads = read_events(res_ptr as int, out).push(
            PluginEvent::Read { addr: curr_ptr as usize, byte: Some(0u8) },
        );
        let r = output_from_bytes(output);
        proof {
            assert(self.log() =~= l0 + (head + reads));
            assert(self.log().take(l0.len() as int) =~= l0);
            assert(self.log().skip(l0.len() as int) =~= head + reads);
            assert((head + reads).skip(3) =~= reads);
            let n = reads.len() - 1;
            assert(Seq::new(n as nat, |i: int| read_byte(reads[i])) =~= out);
            assert(reads.take(n) =~= read_events(res_ptr as int, out));
        }
        r
    }
}

} // verus!
