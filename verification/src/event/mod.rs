//! Events and their processing.

pub mod event;
pub mod traits;
pub mod processor;
pub mod pipeline;

pub use event::{Event, EventTrait};
pub use pipeline::{PipelineError, PipelineTrait, SimplePipeline};
pub use processor::{AddFieldProcessor, FilterProcessor, RemoveFieldProcessor, RenameFieldProcessor, SimpleProcessor};
pub use traits::{FunctionProcessor, ProcessorTrait};
