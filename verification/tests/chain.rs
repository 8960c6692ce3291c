//! Effect chains and the passthrough effect.

use fluxframe::chain::EffectChain;
use fluxframe::context::{FrameContext, ProcessingContext};
use fluxframe::error::EffectError;
use fluxframe::frame::{FrameBuffer, FrameMeta, PixelFormat, VideoFrame};
use fluxframe::name_map::NameMap;
use fluxframe::params::{ParamValue, RawEffectParams};
use fluxframe::passthrough::PassthroughEffect;
use fluxframe::traits::VideoEffect;
use std::sync::{Arc, Mutex};

type Log = Arc<Mutex<Vec<&'static str>>>;

struct RecordingEffect {
    label: &'static str,
    log: Log,
    fail_on_process: bool,
    fail_on_shutdown: bool,
}

impl RecordingEffect {
    fn new(label: &'static str, log: &Log) -> Self {
        Self {
            label,
            log: Arc::clone(log),
            fail_on_process: false,
            fail_on_shutdown: false,
        }
    }
}

impl VideoEffect for RecordingEffect {
    fn name(&self) -> &'static str {
        self.label
    }

    fn configure(&mut self, params: RawEffectParams) -> Result<(), EffectError> {
        match params {
            RawEffectParams::Table(t) => {
                if t.contains_key("bad") {
                    return Err(EffectError::InvalidConfig {
                        name: self.label.to_string(),
                        reason: "bad".to_string(),
                        hint: None,
                    });
                }
                self.log.lock().unwrap().push(self.label);
                Ok(())
            }
            RawEffectParams::Value(_) => Err(EffectError::InvalidConfig {
                name: self.label.to_string(),
                reason: "not a table".to_string(),
                hint: None,
            }),
        }
    }

    fn prepare(&mut self, _context: &ProcessingContext) -> Result<(), EffectError> {
        self.log.lock().unwrap().push(self.label);
        Ok(())
    }

    fn process(
        &mut self,
        _frame: &mut VideoFrame,
        _context: &mut FrameContext,
    ) -> Result<(), EffectError> {
        self.log.lock().unwrap().push(self.label);
        if self.fail_on_process {
            return Err(EffectError::ProcessFailed {
                name: self.label.to_string(),
                reason: "forced".to_string(),
            });
        }
        Ok(())
    }

    fn shutdown(&mut self) -> Result<(), EffectError> {
        self.log.lock().unwrap().push(self.label);
        if self.fail_on_shutdown {
            return Err(EffectError::ProcessFailed {
                name: self.label.to_string(),
                reason: "shutdown forced".to_string(),
            });
        }
        Ok(())
    }
}

fn make_frame() -> VideoFrame {
    VideoFrame::new_packed(
        FrameBuffer::Owned(vec![0u8; 4 * 4 * 3]),
        4,
        4,
        PixelFormat::Rgb,
        FrameMeta::default(),
    )
    .expect("packed RGB frame builds")
}

fn make_ctx() -> ProcessingContext {
    ProcessingContext {
        width: 4,
        height: 4,
        format: PixelFormat::Rgb,
        fps: 30,
        counters: None,
    }
}

fn abc(log: &Log) -> Vec<Box<dyn VideoEffect>> {
    vec![
        Box::new(RecordingEffect::new("A", log)),
        Box::new(RecordingEffect::new("B", log)),
        Box::new(RecordingEffect::new("C", log)),
    ]
}

fn with_b(log: &Log, b: RecordingEffect) -> EffectChain {
    EffectChain::new(vec![
        Box::new(RecordingEffect::new("A", log)),
        Box::new(b),
        Box::new(RecordingEffect::new("C", log)),
    ])
}

#[test]
fn process_runs_effects_in_chain_order() {
    let log: Log = Arc::new(Mutex::new(Vec::new()));
    let mut chain = EffectChain::new(abc(&log));
    let mut frame = make_frame();
    let mut frame_context = FrameContext::default();
    chain.process(&mut frame, &mut frame_context).expect("process ok");
    assert_eq!(*log.lock().unwrap(), vec!["A", "B", "C"]);
}

#[test]
fn process_aborts_on_first_error() {
    let log: Log = Arc::new(Mutex::new(Vec::new()));
    let mut failing_b = RecordingEffect::new("B", &log);
    failing_b.fail_on_process = true;
    let mut chain = with_b(&log, failing_b);
    let mut frame = make_frame();
    let mut frame_context = FrameContext::default();
    let res = chain.process(&mut frame, &mut frame_context);
    assert!(res.is_err(), "expected error propagation");
    assert_eq!(*log.lock().unwrap(), vec!["A", "B"]);
}

#[test]
fn shutdown_calls_every_effect_even_on_error() {
    let log: Log = Arc::new(Mutex::new(Vec::new()));
    let mut failing_b = RecordingEffect::new("B", &log);
    failing_b.fail_on_shutdown = true;
    let mut chain = with_b(&log, failing_b);
    let res = chain.shutdown_all();
    assert_eq!(*log.lock().unwrap(), vec!["A", "B", "C"]);
    match res {
        Err(EffectError::ProcessFailed { name, .. }) => assert_eq!(name, "B"),
        other => panic!("expected ProcessFailed from B, got {other:?}"),
    }
}

#[test]
fn prepare_runs_all_in_order() {
    let log: Log = Arc::new(Mutex::new(Vec::new()));
    let mut chain = EffectChain::new(abc(&log));
    chain.prepare_all(&make_ctx()).expect("prepare ok");
    assert_eq!(*log.lock().unwrap(), vec!["A", "B", "C"]);
}

#[test]
fn empty_chain_is_noop() {
    let mut chain = EffectChain::new(Vec::new());
    assert!(chain.is_empty());
    assert_eq!(chain.len(), 0);
    assert!(chain.names().is_empty());
    chain.prepare_all(&make_ctx()).expect("prepare ok");
    let mut frame = make_frame();
    let mut frame_context = FrameContext::default();
    chain.process(&mut frame, &mut frame_context).expect("process ok");
    chain.shutdown_all().expect("shutdown ok");
}

#[test]
fn names_returns_chain_in_order() {
    let log: Log = Arc::new(Mutex::new(Vec::new()));
    let chain = EffectChain::new(abc(&log));
    assert_eq!(chain.names(), vec!["A", "B", "C"]);
    assert_eq!(chain.into_effects().len(), 3);
}

#[test]
fn configure_hands_each_effect_its_own_table() {
    let log: Log = Arc::new(Mutex::new(Vec::new()));
    let mut chain = EffectChain::new(abc(&log));
    let mut params: NameMap<String, ParamValue> = NameMap::new();
    params.insert(
        "B".to_string(),
        ParamValue::Table(vec![("bad".to_string(), ParamValue::Boolean(true))]),
    );
    let err = chain.configure_all(&params).expect_err("B refuses");
    assert!(err.to_string().contains("'B'"));
    assert_eq!(*log.lock().unwrap(), vec!["A"]);

    let mut params: NameMap<String, ParamValue> = NameMap::new();
    params.insert("C".to_string(), ParamValue::Integer(1));
    let err = chain.configure_all(&params).expect_err("C wants a table");
    assert!(err.to_string().contains("not a table"));

    let params: NameMap<String, ParamValue> = NameMap::new();
    chain.configure_all(&params).expect("empty tables");
}

#[test]
fn passthrough_does_not_modify_frame() {
    let pixels: Vec<u8> = (0..(4 * 4 * 3)).map(|i| i as u8).collect();
    let original = pixels.clone();
    let mut frame = VideoFrame::new_packed(
        FrameBuffer::Owned(pixels),
        4,
        4,
        PixelFormat::Rgb,
        FrameMeta::default(),
    )
    .expect("packed RGB frame builds");

    let mut effect = PassthroughEffect::new();
    effect.prepare(&make_ctx()).unwrap();
    let mut frame_context = FrameContext::default();
    effect.process(&mut frame, &mut frame_context).unwrap();

    assert_eq!(frame.data.as_slice(), original.as_slice());
    assert_eq!(frame.width, 4);
    assert_eq!(frame.height, 4);
    assert_eq!(frame.format, PixelFormat::Rgb);
}
