use gena::{plan_batches, CameraMovement2D, EguiPass, PassManager, RenderPass, INSTANCE_CAPACITY};

/// A pass that writes its name into the frame's trace.
struct TracePass {
    label: String,
    prepared: u32,
}

impl TracePass {
    fn new(label: &str) -> TracePass {
        TracePass { label: label.to_string(), prepared: 0 }
    }
}

impl RenderPass<Vec<String>> for TracePass {
    type Device = ();

    fn runs(&self, before: Vec<String>, after: Vec<String>) -> bool {
        let mut expected = before;
        expected.push(self.label.clone());
        expected == after
    }

    fn prepared(&self, after: TracePass) -> bool {
        after.label == self.label && after.prepared == self.prepared + 1
    }

    fn name(&self) -> &str {
        &self.label
    }

    fn prepare(&mut self, _device: &()) {
        self.prepared += 1;
    }

    fn execute(&self, ctx: &mut Vec<String>) {
        ctx.push(self.label.clone());
    }
}

#[test]
fn passes_run_in_registration_order() {
    let mut manager = PassManager::new();
    manager.add(TracePass::new("A"));
    manager.add(TracePass::new("B"));
    let mut trace: Vec<String> = Vec::new();
    manager.execute_all(&mut trace);
    assert_eq!(trace, vec!["A".to_string(), "B".to_string()]);
    manager.execute_all(&mut trace);
    assert_eq!(trace, vec!["A", "B", "A", "B"]);
}

#[test]
fn prepare_all_keeps_every_pass() {
    let mut manager = PassManager::new();
    manager.add(TracePass::new("sprites"));
    manager.add(TracePass::new("ui"));
    manager.prepare_all(&());
    assert_eq!(manager.len(), 2);
    let mut trace: Vec<String> = Vec::new();
    manager.execute_all(&mut trace);
    assert_eq!(trace, vec!["sprites", "ui"]);
    manager.clear();
    assert_eq!(manager.len(), 0);
    manager.execute_all(&mut trace);
    assert_eq!(trace.len(), 2);
}

#[test]
fn egui_pass_is_named() {
    assert_eq!(EguiPass::new().name(), "egui_pass");
}

#[test]
fn sprites_sharing_a_texture_make_one_draw() {
    let keys = vec![42u64; 5];
    let batches = plan_batches(&keys, INSTANCE_CAPACITY);
    assert_eq!(batches.len(), 1);
    assert_eq!(batches[0].key, 42);
    assert_eq!(batches[0].instance_count, 5);
    assert_eq!(batches[0].members, 5);
    assert_eq!(batches[0].first, 0);
    assert!(!batches[0].clipped);
}

#[test]
fn draws_over_capacity_are_clipped() {
    let keys = vec![7u64; 1500];
    let batches = plan_batches(&keys, INSTANCE_CAPACITY);
    assert_eq!(batches.len(), 1);
    assert_eq!(batches[0].instance_count, 1024);
    assert_eq!(batches[0].members, 1500);
    assert!(batches[0].clipped);

    let exact = plan_batches(&vec![7u64; 1024], INSTANCE_CAPACITY);
    assert_eq!(exact[0].instance_count, 1024);
    assert!(!exact[0].clipped);
}

#[test]
fn batches_follow_first_appearance() {
    let keys = vec![7u64, 3, 7, 9, 3];
    let batches = plan_batches(&keys, 2);
    let summary: Vec<(u64, usize, usize, u32, bool)> =
        batches.iter().map(|b| (b.key, b.first, b.members, b.instance_count, b.clipped)).collect();
    assert_eq!(summary, vec![(7, 0, 2, 2, false), (3, 1, 2, 2, false), (9, 3, 1, 1, false)]);
    assert_eq!(plan_batches(&keys, 1)[0].instance_count, 1);
    assert!(plan_batches(&Vec::new(), 4).is_empty());
}

#[test]
fn camera_moves_in_screen_space() {
    assert_eq!(CameraMovement2D::Up.axis_step(), (0, -1));
    assert_eq!(CameraMovement2D::Down.axis_step(), (0, 1));
    assert_eq!(CameraMovement2D::Left.axis_step(), (-1, 0));
    assert_eq!(CameraMovement2D::Right.axis_step(), (1, 0));
}
