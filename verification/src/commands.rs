pub mod clone;
pub mod install_plugin;
pub mod new;
pub mod run;
pub mod search;

pub use clone::CloneCommand;
pub use install_plugin::InstallPluginCommand;
pub use new::NewCommand;
pub use run::RunCommand;
pub use search::SearchCommand;
