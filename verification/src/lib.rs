pub mod text;
pub mod timeline;
pub mod model;
pub mod split;
pub mod git;
pub mod i18n;
pub mod plugins;
pub mod bevy;
pub mod openmontage;
pub mod npc_ai;
pub mod weather;
pub mod task_list;
pub mod agent_config;
