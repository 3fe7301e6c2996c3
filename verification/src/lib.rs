//! A Sans-I/O MQTT protocol library: wire formats of MQTT packets, the incremental
//! frame assembler, identifier allocation and topic alias bookkeeping, each with
//! contracts proved by Verus.

pub mod mqtt;
