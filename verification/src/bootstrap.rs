//! The two scripts that bring a compiled module into the rendering context,
//! and the slot of shared bindings that the first of them fills.

use vstd::prelude::*;
use vstd::string::StringExecFns;

verus! {

/// The text of the loader script before the module's address.
pub const LOADER_IMPORT: &'static str = "\n      import _init, * as _bindgen from \"";

/// The text of the loader script after the module's address: it installs the
/// shared bindings where the context has none yet.
pub const LOADER_INSTALL: &'static str =
    "\";\n      \n      globalThis.bindgen ||= _bindgen\n      globalThis.init ||= _init \n    ";

/// The text of the adapter script before the processor's name.
pub const ADAPTER_REGISTER: &'static str = "\n    registerProcessor(\n      \"";

/// The text of the adapter script between the registered name and the name of
/// the class.
pub const ADAPTER_CLASS: &'static str = "\",\n      class ";

/// The text of the adapter script between the name of the class and the list
/// of parameter descriptors.
pub const ADAPTER_DESCRIPTORS: &'static str =
    " extends AudioWorkletProcessor {\n        static get parameterDescriptors() {\n          return ";

/// The text of the adapter script between the list of parameter descriptors
/// and the name of the bridge's constructor: the adapter keeps the
/// construction options and instantiates a compiled module that they carry.
pub const ADAPTER_CONSTRUCT: &'static str =
    "\n        }\n        constructor(options) {\n          super();\n          this.options = options;\n          const [wasm_src] = options.processorOptions || [];\n          this.init(wasm_src)\n        }\n\n        async init(wasm_src) {\n          if (wasm_src) {\n            const module = await WebAssembly.compile(wasm_src);\n            bindgen.initSync(module);\n          }\n\n          this.processor = new bindgen.";

/// The rest of the adapter script: it signals completion, connects the
/// bridge, forwards each quantum and releases the bridge once a quantum
/// returns false.
pub const ADAPTER_RUN: &'static str =
    "(this);\n      \n          this.port.postMessage({ method: 'send_wasm_program_done' })\n\n          this.processor.connect();\n        }\n\n        process(inputs, outputs, parameters) {\n            if (this.processor && !this.processor.process(inputs, outputs, parameters)) {\n                this.processor.free();\n                return false;\n            };\n            return true\n        }\n      }\n    );\n  ";

/// The loader script for the compiled module found at `url`.
pub open spec fn loader_text(url: Seq<char>) -> Seq<char> {
    LOADER_IMPORT@ + url + LOADER_INSTALL@
}

/// The adapter script that registers the processor `name` with the given
/// list of parameter descriptors.
pub open spec fn adapter_text(name: Seq<char>, descriptors: Seq<char>) -> Seq<char> {
    ADAPTER_REGISTER@ + name + ADAPTER_CLASS@ + name + ADAPTER_DESCRIPTORS@ + descriptors
        + ADAPTER_CONSTRUCT@ + name + ADAPTER_RUN@
}

/// Creates the small script that loads the compiled module at `url` into the
/// rendering context and shares its bindings with every later registration.
pub fn loader_source(url: &str) -> (source: String)
    ensures
        source@ == loader_text(url@),
{
    let mut source = String::from_str(LOADER_IMPORT);
    source.append(url);
    source.append(LOADER_INSTALL);
    source
}

/// Creates the small script that connects the rendering context's processor
/// class `processor_name` to the bridge. Only the name and the list of
/// parameter descriptors are substituted into a fixed text.
pub fn js_source(processor_name: &str, parameter_descriptors: &str) -> (source: String)
    ensures
        source@ == adapter_text(processor_name@, parameter_descriptors@),
{
    let mut source = String::from_str(ADAPTER_REGISTER);
    source.append(processor_name);
    source.append(ADAPTER_CLASS);
    source.append(processor_name);
    source.append(ADAPTER_DESCRIPTORS);
    source.append(parameter_descriptors);
    source.append(ADAPTER_CONSTRUCT);
    source.append(processor_name);
    source.append(ADAPTER_RUN);
    source
}

/// What a context's slot of shared bindings holds after `offered` was
/// installed into it: what it held before, if anything, else `offered`.
pub open spec fn installed_after<B>(held: Option<B>, offered: B) -> Option<B> {
    match held {
        Some(_) => held,
        None => Some(offered),
    }
}

/// Installing twice leaves what installing once leaves: the second
/// installation finds the bindings of the first and keeps them.
pub proof fn lemma_install_is_idempotent<B>(held: Option<B>, first: B, second: B)
    ensures
        installed_after(installed_after(held, first), second) == installed_after(held, first),
{
}

/// The bindings that all registrations in one rendering context share. They
/// are installed once and stay for as long as the context lives.
pub struct SharedBindings<B> {
    held: Option<B>,
}

impl<B> View for SharedBindings<B> {
    type V = Option<B>;

    closed spec fn view(&self) -> Option<B> {
        self.held
    }
}

impl<B> SharedBindings<B> {
    /// The slot of a fresh context: nothing is installed.
    pub fn new() -> (slot: SharedBindings<B>)
        ensures
            slot@ == None::<B>,
    {
        SharedBindings { held: None }
    }

    /// Installs `offered` if the context has no bindings yet, and says
    /// whether it did. Bindings that are installed are never replaced.
    pub fn install(&mut self, offered: B) -> (installed: bool)
        ensures
            final(self)@ == installed_after(old(self)@, offered),
            installed == (old(self)@ is None),
    {
        if self.held.is_none() {
            self.held = Some(offered);
            true
        } else {
            false
        }
    }

    /// The installed bindings, if any.
    pub fn get(&self) -> (held: Option<&B>)
        ensures
            held is Some <==> self@ is Some,
            held matches Some(b) ==> self@ == Some(*b),
    {
        self.held.as_ref()
    }
}

} // verus!
