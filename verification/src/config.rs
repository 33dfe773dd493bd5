//! The configuration of the application and the service that holds it.

use vstd::prelude::*;
use crate::text::{clone_opt_string, clone_strings, opt_view, views};

verus! {

/// How the transcoding tool is found and called.
#[derive(Debug)]
pub struct FfmpegConfig {
    /// The path of the tool; its usual name is used where there is none.
    pub path: Option<String>,
    /// Arguments that every invocation gets.
    pub default_args: Vec<String>,
    /// After how many seconds a run is given up.
    pub timeout: u32,
}

/// What video operations use where a request leaves it open.
#[derive(Debug)]
pub struct VideoConfig {
    /// In kilobits per second.
    pub default_bitrate: u32,
    pub default_codec: String,
    pub default_width: Option<u32>,
    pub default_height: Option<u32>,
}

/// How jobs are managed.
#[derive(Debug)]
pub struct TaskConfig {
    /// How many jobs may run at once.
    pub max_concurrent_tasks: usize,
    /// After how many days jobs that have ended are cleaned up.
    pub auto_cleanup_days: u32,
}

/// What is logged, and where.
#[derive(Debug)]
pub struct LoggingConfig {
    pub log_level: String,
    pub enable_file_log: bool,
    pub log_file: Option<String>,
}

/// The configuration of the application.
#[derive(Debug)]
pub struct AppConfig {
    pub ffmpeg: FfmpegConfig,
    pub video: VideoConfig,
    pub task: TaskConfig,
    pub logging: LoggingConfig,
}

impl Default for FfmpegConfig {
    fn default() -> (config: Self)
        ensures
            config.path is None,
            config.default_args@.len() == 0,
            config.timeout == 0,
    {
        FfmpegConfig { path: None, default_args: Vec::new(), timeout: 0 }
    }
}

impl Default for VideoConfig {
    fn default() -> (config: Self)
        ensures
            config.default_bitrate == 0,
            config.default_codec@.len() == 0,
            config.default_width is None,
            config.default_height is None,
    {
        VideoConfig {
            default_bitrate: 0,
            default_codec: String::new(),
            default_width: None,
            default_height: None,
        }
    }
}

impl Default for TaskConfig {
    fn default() -> (config: Self)
        ensures
            config.max_concurrent_tasks == 0,
            config.auto_cleanup_days == 0,
    {
        TaskConfig { max_concurrent_tasks: 0, auto_cleanup_days: 0 }
    }
}

impl Default for LoggingConfig {
    fn default() -> (config: Self)
        ensures
            config.log_level@.len() == 0,
            !config.enable_file_log,
            config.log_file is None,
    {
        LoggingConfig { log_level: String::new(), enable_file_log: false, log_file: None }
    }
}

/// Whether two configurations say the same.
pub open spec fn same_settings(a: AppConfig, b: AppConfig) -> bool {
    &&& opt_view(a.ffmpeg.path) == opt_view(b.ffmpeg.path)
    &&& views(a.ffmpeg.default_args@) == views(b.ffmpeg.default_args@)
    &&& a.ffmpeg.timeout == b.ffmpeg.timeout
    &&& a.video.default_bitrate == b.video.default_bitrate
    &&& a.video.default_codec@ == b.video.default_codec@
    &&& a.video.default_width == b.video.default_width
    &&& a.video.default_height == b.video.default_height
    &&& a.task == b.task
    &&& a.logging.log_level@ == b.logging.log_level@
    &&& a.logging.enable_file_log == b.logging.enable_file_log
    &&& opt_view(a.logging.log_file) == opt_view(b.logging.log_file)
}

impl Clone for AppConfig {
    fn clone(&self) -> (copy: Self)
        ensures
            same_settings(copy, *self),
    {
        AppConfig {
            ffmpeg: FfmpegConfig {
                path: clone_opt_string(&self.ffmpeg.path),
                default_args: clone_strings(&self.ffmpeg.default_args),
                timeout: self.ffmpeg.timeout,
            },
            video: VideoConfig {
                default_bitrate: self.video.default_bitrate,
                default_codec: self.video.default_codec.clone(),
                default_width: self.video.default_width,
                default_height: self.video.default_height,
            },
            task: TaskConfig {
                max_concurrent_tasks: self.task.max_concurrent_tasks,
                auto_cleanup_days: self.task.auto_cleanup_days,
            },
            logging: LoggingConfig {
                log_level: self.logging.log_level.clone(),
                enable_file_log: self.logging.enable_file_log,
                log_file: clone_opt_string(&self.logging.log_file),
            },
        }
    }
}

/// Whether `config` is the configuration that holds nothing: numbers are 0,
/// texts and lists are empty, and what may be absent is absent.
pub open spec fn is_default(config: AppConfig) -> bool {
    &&& config.ffmpeg.path is None
    &&& config.ffmpeg.default_args@.len() == 0
    &&& config.ffmpeg.timeout == 0
    &&& config.video.default_bitrate == 0
    &&& config.video.default_codec@.len() == 0
    &&& config.video.default_width is None
    &&& config.video.default_height is None
    &&& config.task.max_concurrent_tasks == 0
    &&& config.task.auto_cleanup_days == 0
    &&& config.logging.log_level@.len() == 0
    &&& !config.logging.enable_file_log
    &&& config.logging.log_file is None
}

impl Default for AppConfig {
    fn default() -> (config: Self)
        ensures
            is_default(config),
    {
        AppConfig {
            ffmpeg: FfmpegConfig::default(),
            video: VideoConfig::default(),
            task: TaskConfig::default(),
            logging: LoggingConfig::default(),
        }
    }
}

/// Holds the configuration, and the path of the file that it is kept in
/// once that is known.
pub struct ConfigService {
    config: AppConfig,
    config_path: Option<String>,
}

impl ConfigService {
    /// The configuration that is held.
    pub closed spec fn config(&self) -> AppConfig {
        self.config
    }

    /// The path of the file that the configuration is kept in.
    pub closed spec fn path(&self) -> Option<String> {
        self.config_path
    }

    /// A service that holds the default configuration and knows no file.
    pub fn new() -> (service: Self)
        ensures
            is_default(service.config()),
            service.path() is None,
    {
        ConfigService { config: AppConfig::default(), config_path: None }
    }

    /// Takes in what was found at `config_path`: the configuration `stored`
    /// where the file held one, else the configuration stays as it is.
    /// Returns whether the file is yet to be written.
    pub fn load_config(&mut self, config_path: String, stored: Option<AppConfig>) -> (missing: bool)
        ensures
            final(self).path() == Some(config_path),
            final(self).config() == match stored {
                Some(config) => config,
                None => old(self).config(),
            },
            missing == (stored is None),
    {
        self.config_path = Some(config_path);
        match stored {
            Some(config) => {
                self.config = config;
                false
            },
            None => true,
        }
    }

    /// The path of the file that the configuration is to be written to, if
    /// one is known.
    pub fn save_config(&self) -> (target: Option<&String>)
        ensures
            match target {
                Some(path) => self.path() == Some(*path),
                None => self.path() is None,
            },
    {
        self.config_path.as_ref()
    }

    /// The configuration that is held.
    pub fn get_config(&self) -> (config: &AppConfig)
        ensures
            *config == self.config(),
    {
        &self.config
    }

    /// Replaces the configuration.
    pub fn update_config(&mut self, config: AppConfig)
        ensures
            final(self).config() == config,
            final(self).path() == old(self).path(),
    {
        self.config = config;
    }

    /// Replaces the configuration of the transcoding tool.
    pub fn update_ffmpeg_config(&mut self, ffmpeg_config: FfmpegConfig)
        ensures
            final(self).config() == (AppConfig { ffmpeg: ffmpeg_config, ..old(self).config() }),
            final(self).path() == old(self).path(),
    {
        self.config.ffmpeg = ffmpeg_config;
    }

    /// Replaces the configuration of the video operations.
    pub fn update_video_config(&mut self, video_config: VideoConfig)
        ensures
            final(self).config() == (AppConfig { video: video_config, ..old(self).config() }),
            final(self).path() == old(self).path(),
    {
        self.config.video = video_config;
    }

    /// Replaces the configuration of the job management.
    pub fn update_task_config(&mut self, task_config: TaskConfig)
        ensures
            final(self).config() == (AppConfig { task: task_config, ..old(self).config() }),
            final(self).path() == old(self).path(),
    {
        self.config.task = task_config;
    }

    /// Replaces the configuration of the logging.
    pub fn update_logging_config(&mut self, logging_config: LoggingConfig)
        ensures
            final(self).config() == (AppConfig { logging: logging_config, ..old(self).config() }),
            final(self).path() == old(self).path(),
    {
        self.config.logging = logging_config;
    }
}

} // verus!
