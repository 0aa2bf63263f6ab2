use waw::bootstrap::{js_source, loader_source, SharedBindings};

fn expected_adapter(processor_name: &str, parameter_descriptors: &str) -> String {
    format!(
        "
    registerProcessor(
      \"{processor_name}\",
      class {processor_name} extends AudioWorkletProcessor {{
        static get parameterDescriptors() {{
          return {parameter_descriptors}
        }}
        constructor(options) {{
          super();
          this.options = options;
          const [wasm_src] = options.processorOptions || [];
          this.init(wasm_src)
        }}

        async init(wasm_src) {{
          if (wasm_src) {{
            const module = await WebAssembly.compile(wasm_src);
            bindgen.initSync(module);
          }}

          this.processor = new bindgen.{processor_name}(this);
      
          this.port.postMessage({{ method: 'send_wasm_program_done' }})

          this.processor.connect();
        }}

        process(inputs, outputs, parameters) {{
            if (this.processor && !this.processor.process(inputs, outputs, parameters)) {{
                this.processor.free();
                return false;
            }};
            return true
        }}
      }}
    );
  "
    )
}

fn expected_loader(url: &str) -> String {
    format!(
        "
      import _init, * as _bindgen from \"{url}\";
      
      globalThis.bindgen ||= _bindgen
      globalThis.init ||= _init 
    "
    )
}

#[test]
fn adapter_script_is_the_fixed_text_with_name_and_descriptors() {
    let descriptors = "[{\"name\":\"gain\",\"defaultValue\":1}]";
    assert_eq!(js_source("Gain", descriptors), expected_adapter("Gain", descriptors));
}

#[test]
fn adapter_script_names_the_processor_three_times() {
    let source = js_source("Oscillator", "[]");
    assert_eq!(source.matches("Oscillator").count(), 3);
    assert!(source.contains("registerProcessor(\n      \"Oscillator\","));
    assert!(source.contains("class Oscillator extends AudioWorkletProcessor {"));
    assert!(source.contains("this.processor = new bindgen.Oscillator(this);"));
    assert!(source.contains("return []\n"));
}

#[test]
fn adapter_script_signals_completion_once_before_connecting() {
    let source = js_source("Gain", "[]");
    let signal = "this.port.postMessage({ method: 'send_wasm_program_done' })";
    assert_eq!(source.matches(signal).count(), 1);
    let signalled = source.find(signal).unwrap();
    let constructed = source.find("this.processor = new bindgen.Gain(this);").unwrap();
    let connected = source.find("this.processor.connect();").unwrap();
    assert!(constructed < signalled);
    assert!(signalled < connected);
}

#[test]
fn adapter_script_releases_the_processor_when_a_quantum_returns_false() {
    let source = js_source("Gain", "[]");
    assert!(source.contains(
        "if (this.processor && !this.processor.process(inputs, outputs, parameters)) {\n                this.processor.free();\n                return false;"
    ));
    assert_eq!(source.matches("this.processor.free();").count(), 1);
}

#[test]
fn adapter_script_with_empty_name_and_descriptors() {
    assert_eq!(js_source("", ""), expected_adapter("", ""));
}

#[test]
fn adapter_script_keeps_text_that_is_not_ascii() {
    assert_eq!(js_source("Verst\u{e4}rker", "[\"\u{3b1}\"]"), expected_adapter("Verst\u{e4}rker", "[\"\u{3b1}\"]"));
}

#[test]
fn loader_script_imports_the_module_and_installs_if_absent() {
    let url = "http://localhost:8080/pkg/demo.js";
    let source = loader_source(url);
    assert_eq!(source, expected_loader(url));
    assert!(source.contains("import _init, * as _bindgen from \"http://localhost:8080/pkg/demo.js\";"));
    assert!(source.contains("globalThis.bindgen ||= _bindgen"));
    assert!(source.contains("globalThis.init ||= _init"));
}

#[test]
fn loader_script_with_empty_address() {
    assert_eq!(loader_source(""), expected_loader(""));
}

#[test]
fn fresh_context_has_no_bindings() {
    let slot: SharedBindings<u32> = SharedBindings::new();
    assert_eq!(slot.get(), None);
}

#[test]
fn first_installation_is_kept() {
    let mut slot = SharedBindings::new();
    assert!(slot.install("first"));
    assert_eq!(slot.get(), Some(&"first"));
}

#[test]
fn installing_twice_is_installing_once() {
    let mut once = SharedBindings::new();
    once.install(1);
    let mut twice = SharedBindings::new();
    assert!(twice.install(1));
    assert!(!twice.install(2));
    assert_eq!(twice.get(), once.get());
    assert_eq!(twice.get(), Some(&1));
    assert!(!twice.install(1));
    assert_eq!(twice.get(), Some(&1));
}
