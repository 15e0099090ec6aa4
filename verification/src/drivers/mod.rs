pub mod block;
pub mod gpu;
pub mod pci;
pub mod serial;
pub mod virtio_blk;
pub mod virtio_gpu;
