use wgpu_util::readback::{
    BufferAsyncError, BufferRegion, DownloadBuffer, StagingPhase, StagingStep,
};

/// Mock GPU context: owns a source buffer, performs each staging step of a
/// readback request on plain memory, and counts continuation deliveries.
struct MockGpu {
    source: Vec<u8>,
    phase: StagingPhase,
    staging: Vec<u8>,
    deliveries: u32,
}

impl MockGpu {
    fn new(source: Vec<u8>) -> MockGpu {
        MockGpu {
            source,
            phase: StagingPhase::initial(),
            staging: Vec::new(),
            deliveries: 0,
        }
    }

    fn total_size(&self) -> u64 {
        self.source.len() as u64
    }

    fn perform(&mut self, step: StagingStep) {
        assert!(self.phase.enabled(step), "step performed out of order");
        self.phase = self.phase.step(step);
    }

    /// Drives a request up to the point where the mapping outcome is pending.
    fn submit(&mut self, inflight: &wgpu_util::readback::ReadbackInFlight) {
        self.perform(StagingStep::Allocate);
        self.staging = vec![0u8; inflight.size as usize];
        self.perform(StagingStep::RecordCopy);
        let start = inflight.src_offset as usize;
        let end = start + inflight.size as usize;
        self.staging.copy_from_slice(&self.source[start..end]);
        self.perform(StagingStep::Submit);
        self.perform(StagingStep::RequestMap);
    }
}

#[test]
fn explicit_size_is_copied_and_delivered_once() {
    let source: Vec<u8> = (0u8..32).collect();
    let mut gpu = MockGpu::new(source.clone());
    let region = BufferRegion {
        offset: 4,
        size: Some(8),
    };
    let inflight = DownloadBuffer::read_buffer(gpu.total_size(), region);
    assert_eq!(inflight.size, 8);
    assert_eq!(inflight.src_offset, 4);
    gpu.submit(&inflight);
    gpu.perform(StagingStep::MapOk);
    gpu.deliveries += 1;
    let download = inflight.complete(Ok(gpu.staging.clone())).unwrap();
    assert_eq!(gpu.deliveries, 1);
    assert_eq!(download.len(), 8);
    assert_eq!(download.as_bytes(), &source[4..12]);
}

#[test]
fn rest_of_buffer_size_is_resolved_under_the_metadata() {
    let source: Vec<u8> = (0u8..100).collect();
    let mut gpu = MockGpu::new(source.clone());
    let region = BufferRegion {
        offset: 16,
        size: None,
    };
    let inflight = DownloadBuffer::read_buffer(gpu.total_size(), region);
    assert_eq!(inflight.size, 84);
    gpu.submit(&inflight);
    gpu.perform(StagingStep::MapOk);
    gpu.deliveries += 1;
    let download = inflight.complete(Ok(gpu.staging.clone())).unwrap();
    assert_eq!(gpu.deliveries, 1);
    assert_eq!(download.len(), 84);
    assert_eq!(download.as_bytes(), &source[16..]);
}

#[test]
fn induced_mapping_failure_delivers_the_error_and_no_bytes() {
    let mut gpu = MockGpu::new(vec![7u8; 16]);
    let region = BufferRegion {
        offset: 0,
        size: None,
    };
    let inflight = DownloadBuffer::read_buffer(gpu.total_size(), region);
    gpu.submit(&inflight);
    gpu.perform(StagingStep::MapErr);
    gpu.deliveries += 1;
    let outcome = inflight.complete(Err(BufferAsyncError));
    assert_eq!(gpu.deliveries, 1);
    assert!(outcome.is_err());
    assert_eq!(outcome.err(), Some(BufferAsyncError));
    // The buffer was never mapped, so it may be released right away.
    assert!(gpu.phase.enabled(StagingStep::Release));
    gpu.perform(StagingStep::Release);
}

#[test]
fn staging_buffer_cannot_be_released_while_the_handle_is_alive() {
    let source: Vec<u8> = (0u8..16).collect();
    let mut gpu = MockGpu::new(source.clone());
    let region = BufferRegion {
        offset: 0,
        size: Some(16),
    };
    let inflight = DownloadBuffer::read_buffer(gpu.total_size(), region);
    gpu.submit(&inflight);
    gpu.perform(StagingStep::MapOk);
    gpu.deliveries += 1;
    let download = inflight.complete(Ok(gpu.staging.clone())).unwrap();
    // While the handle owns the mapped range, the buffer may not be reused
    // or destroyed.
    assert!(!gpu.phase.enabled(StagingStep::Release));
    assert_eq!(download.as_bytes(), &source[..]);
    // Dropping the handle unmaps the buffer; only then is release enabled.
    drop(download);
    gpu.perform(StagingStep::DropHandle);
    assert!(gpu.phase.enabled(StagingStep::Release));
    gpu.perform(StagingStep::Release);
    assert_eq!(gpu.deliveries, 1);
}

#[test]
fn no_second_delivery_is_possible_after_completion() {
    let mut gpu = MockGpu::new(vec![1u8; 8]);
    let region = BufferRegion {
        offset: 0,
        size: None,
    };
    let inflight = DownloadBuffer::read_buffer(gpu.total_size(), region);
    gpu.submit(&inflight);
    gpu.perform(StagingStep::MapOk);
    // Once the mapping outcome arrived, neither completion step is enabled
    // again: the continuation cannot be invoked a second time.
    assert!(!gpu.phase.enabled(StagingStep::MapOk));
    assert!(!gpu.phase.enabled(StagingStep::MapErr));
}

#[test]
fn steps_are_enabled_only_in_pipeline_order() {
    let mut gpu = MockGpu::new(vec![0u8; 4]);
    assert!(gpu.phase.enabled(StagingStep::Allocate));
    assert!(!gpu.phase.enabled(StagingStep::Submit));
    assert!(!gpu.phase.enabled(StagingStep::MapOk));
    assert!(!gpu.phase.enabled(StagingStep::Release));
    gpu.perform(StagingStep::Allocate);
    assert!(!gpu.phase.enabled(StagingStep::Allocate));
    assert!(gpu.phase.enabled(StagingStep::RecordCopy));
    gpu.perform(StagingStep::RecordCopy);
    assert!(gpu.phase.enabled(StagingStep::Submit));
    gpu.perform(StagingStep::Submit);
    assert!(gpu.phase.enabled(StagingStep::RequestMap));
    gpu.perform(StagingStep::RequestMap);
    assert!(gpu.phase.enabled(StagingStep::MapOk));
    assert!(gpu.phase.enabled(StagingStep::MapErr));
    assert!(!gpu.phase.enabled(StagingStep::DropHandle));
}
